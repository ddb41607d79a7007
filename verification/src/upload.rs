//! Uploads through a coordinator, on the side of the client.

use vstd::prelude::*;

use crate::env::{var_of, Environment};
use crate::error::{agrees, in_context, ErrorChain};
use crate::json::{
    json_members, object_insert_count, object_insert_text, object_new, value_text, value_text_of,
    JsonMember,
};
use crate::number::{at_least, decimal, decimal_of, max_usize, padded, padded_of};
use crate::text::{
    chars_of, copy_opt, has_prefix, has_suffix, opt_text, string_of, trim, trim_of,
};
use crate::util::{is_uuid_text, lossy_text, lossy_text_of, new_uuid, parse_size, size_of};

verus! {

// ---------------------------------------------------------------------------
// Settings

/// The settings of a client.
#[derive(Clone, Copy, Debug)]
pub struct E2eClientConfig {
    pub max_message_size: usize,
}

/// The size that a variable holds, or `default`.
pub open spec fn env_size_of(
    vars: Seq<(Seq<char>, Seq<char>)>,
    key: Seq<char>,
    default: usize,
) -> Result<usize, Seq<Seq<char>>> {
    match var_of(vars, key) {
        Some(value) => in_context(size_of(value), "invalid "@ + key),
        None => Ok(default),
    }
}

/// The size that a variable holds, or `default`.
pub fn env_size(env: &Environment, key: &str, default: usize) -> (r: Result<usize, ErrorChain>)
    ensures
        agrees(r, env_size_of(env@, key@, default)),
{
    match env.var(key) {
        Some(value) => match parse_size(value) {
            Ok(size) => Ok(size),
            Err(error) => {
                let mut message = "invalid ".to_owned();
                message.append(key);
                Err(error.context(message))
            },
        },
        None => Ok(default),
    }
}

/// The settings of a client from the environment.
pub open spec fn client_settings_of(
    vars: Seq<(Seq<char>, Seq<char>)>,
) -> Result<E2eClientConfig, Seq<Seq<char>>> {
    match env_size_of(vars, "FLIGHT_MAX_MESSAGE_SIZE"@, 0x1000_0000) {
        Ok(size) => Ok(E2eClientConfig { max_message_size: size }),
        Err(messages) => Err(messages),
    }
}

impl E2eClientConfig {
    /// The settings from the environment.
    pub fn from_env(env: &Environment) -> (r: Result<E2eClientConfig, ErrorChain>)
        ensures
            agrees(r, client_settings_of(env@)),
    {
        match env_size(env, "FLIGHT_MAX_MESSAGE_SIZE", 256 * 1024 * 1024) {
            Ok(max_message_size) => Ok(E2eClientConfig { max_message_size }),
            Err(error) => Err(error),
        }
    }
}

/// The size that an option holds.
pub open spec fn optional_size_of(
    name: Seq<char>,
    value: Option<Seq<char>>,
) -> Result<Option<u64>, Seq<Seq<char>>> {
    match value {
        None => Ok(None),
        Some(value) => match in_context(size_of(value), "failed to parse "@ + name) {
            Ok(size) => Ok(Some(size as u64)),
            Err(messages) => Err(messages),
        },
    }
}

/// The size that an option holds.
pub fn parse_optional_size(name: &str, value: &Option<String>) -> (r: Result<
    Option<u64>,
    ErrorChain,
>)
    ensures
        agrees(r, optional_size_of(name@, opt_text(*value))),
{
    match value {
        None => Ok(None),
        Some(value) => match parse_size(value.as_str()) {
            Ok(size) => Ok(Some(size as u64)),
            Err(error) => {
                let mut message = "failed to parse ".to_owned();
                message.append(name);
                Err(error.context(message))
            },
        },
    }
}

/// Where a text comes from that is given inline or in a file.
#[derive(Debug)]
pub enum TextSource {
    Inline(String),
    File,
    Nowhere,
}

/// Whether a result tells where a text comes from.
pub open spec fn is_text_source(
    inline: Option<Seq<char>>,
    has_file: bool,
    clash: Seq<char>,
    result: Result<TextSource, ErrorChain>,
) -> bool {
    match (inline, has_file) {
        (Some(_), true) => result matches Err(error) && error@ == seq![clash],
        (Some(text), false) => result matches Ok(TextSource::Inline(found)) && found@ == text,
        (None, true) => result matches Ok(TextSource::File),
        (None, false) => result matches Ok(TextSource::Nowhere),
    }
}

/// Where a text comes from; it is an error, told by `clash`, to give both.
pub fn text_source(inline: &Option<String>, has_file: bool, clash: &str) -> (r: Result<
    TextSource,
    ErrorChain,
>)
    ensures
        is_text_source(opt_text(*inline), has_file, clash@, r),
{
    match inline {
        Some(text) => if has_file {
            Err(ErrorChain::new(clash.to_owned()))
        } else {
            Ok(TextSource::Inline(text.clone()))
        },
        None => if has_file {
            Ok(TextSource::File)
        } else {
            Ok(TextSource::Nowhere)
        },
    }
}

// ---------------------------------------------------------------------------
// Requests

/// How an upload is committed.
#[derive(Clone, Copy, Debug, PartialEq, Eq, Structural)]
pub enum CommitMode {
    Append,
    Overwrite,
}

impl CommitMode {
    /// The name of the mode.
    pub open spec fn text(self) -> Seq<char> {
        match self {
            CommitMode::Append => "append"@,
            CommitMode::Overwrite => "overwrite"@,
        }
    }

    /// The name of the mode.
    pub fn as_str(self) -> (r: &'static str)
        ensures
            r@ == self.text(),
    {
        match self {
            CommitMode::Append => "append",
            CommitMode::Overwrite => "overwrite",
        }
    }
}

/// How many streams an upload asks for.
#[derive(Clone, Copy, Debug, PartialEq, Eq, Structural)]
pub enum UploadFlavor {
    Small,
    Medium,
    Large,
}

impl UploadFlavor {
    /// The name of the flavor.
    pub open spec fn text(self) -> Seq<char> {
        match self {
            UploadFlavor::Small => "small"@,
            UploadFlavor::Medium => "medium"@,
            UploadFlavor::Large => "large"@,
        }
    }

    /// The name of the flavor.
    pub fn as_str(self) -> (r: &'static str)
        ensures
            r@ == self.text(),
    {
        match self {
            UploadFlavor::Small => "small",
            UploadFlavor::Medium => "medium",
            UploadFlavor::Large => "large",
        }
    }
}

/// What a client asks a coordinator for.
#[derive(Debug)]
pub struct CreateUploadRequest {
    pub operation_id: String,
    pub upload_id: Option<String>,
    pub table_name: Option<String>,
    pub schema: Option<String>,
    pub commit_mode: Option<CommitMode>,
    pub trino_user: Option<String>,
    pub trino_authorization: Option<String>,
    pub flavor: String,
    pub target_file_size: Option<u64>,
    pub max_stream_bytes: Option<u64>,
    pub max_record_batch_bytes: Option<u64>,
    pub ttl_ms: Option<u64>,
}

/// Members with a text that is more than white space.
pub open spec fn with_text(
    members: Map<Seq<char>, JsonMember>,
    name: Seq<char>,
    value: Option<Seq<char>>,
) -> Map<Seq<char>, JsonMember> {
    match value {
        Some(value) => if trim_of(value).len() > 0 {
            members.insert(name, JsonMember::Text(value))
        } else {
            members
        },
        None => members,
    }
}

/// Sets a member to a text that is more than white space.
pub fn insert_string(
    body: &mut serde_json::Map<String, serde_json::Value>,
    key: &str,
    value: &Option<String>,
)
    ensures
        json_members(*final(body)) == with_text(
            json_members(*old(body)),
            key@,
            opt_text(*value),
        ),
{
    if let Some(value) = value {
        if !trim(value.as_str()).as_str().is_empty() {
            object_insert_text(body, key, value.as_str());
        }
    }
}

/// Members with a text that is not empty.
pub open spec fn with_filled_text(
    members: Map<Seq<char>, JsonMember>,
    name: Seq<char>,
    value: Option<Seq<char>>,
) -> Map<Seq<char>, JsonMember> {
    match value {
        Some(value) => if value.len() > 0 {
            members.insert(name, JsonMember::Text(value))
        } else {
            members
        },
        None => members,
    }
}

/// Sets a member to a text that is not empty.
pub fn insert_filled_string(
    body: &mut serde_json::Map<String, serde_json::Value>,
    key: &str,
    value: &Option<String>,
)
    ensures
        json_members(*final(body)) == with_filled_text(
            json_members(*old(body)),
            key@,
            opt_text(*value),
        ),
{
    if let Some(value) = value {
        if !value.as_str().is_empty() {
            object_insert_text(body, key, value.as_str());
        }
    }
}

/// Members with a number.
pub open spec fn with_count(
    members: Map<Seq<char>, JsonMember>,
    name: Seq<char>,
    value: Option<u64>,
) -> Map<Seq<char>, JsonMember> {
    match value {
        Some(value) => members.insert(name, JsonMember::Count(value)),
        None => members,
    }
}

/// Sets a member to a number.
pub fn insert_u64(
    body: &mut serde_json::Map<String, serde_json::Value>,
    key: &str,
    value: Option<u64>,
)
    ensures
        json_members(*final(body)) == with_count(json_members(*old(body)), key@, value),
{
    if let Some(value) = value {
        object_insert_count(body, key, value);
    }
}

/// Whether `members` is what `fill` makes of an object without members.
pub open spec fn is_filled(
    members: Map<Seq<char>, JsonMember>,
    fill: spec_fn(Map<Seq<char>, JsonMember>) -> Map<Seq<char>, JsonMember>,
) -> bool {
    exists|empty: Map<Seq<char>, JsonMember>|
        (#[trigger] empty.dom()) == Set::<Seq<char>>::empty() && members == fill(empty)
}

/// The members of a request for an upload.
pub open spec fn create_upload_members(
    members: Map<Seq<char>, JsonMember>,
    request: CreateUploadRequest,
) -> Map<Seq<char>, JsonMember> {
    let members = members.insert("operationId"@, JsonMember::Text(request.operation_id@)).insert(
        "flavor"@,
        JsonMember::Text(request.flavor@),
    );
    let members = with_text(members, "uploadId"@, opt_text(request.upload_id));
    let members = with_text(members, "tableName"@, opt_text(request.table_name));
    let members = with_text(members, "schema"@, opt_text(request.schema));
    let members = match request.commit_mode {
        Some(mode) => members.insert("mode"@, JsonMember::Text(mode.text())),
        None => members,
    };
    let members = with_text(members, "user"@, opt_text(request.trino_user));
    let members = with_text(members, "authorization"@, opt_text(request.trino_authorization));
    let members = with_count(members, "targetFileSizeBytes"@, request.target_file_size);
    let members = with_count(members, "maxStreamBytes"@, request.max_stream_bytes);
    let members = with_count(members, "maxRecordBatchBytes"@, request.max_record_batch_bytes);
    with_count(members, "ttlMs"@, request.ttl_ms)
}

/// The body of a request for an upload.
pub fn create_upload(request: &CreateUploadRequest) -> (r: serde_json::Map<
    String,
    serde_json::Value,
>)
    ensures
        is_filled(
            json_members(r),
            |members: Map<Seq<char>, JsonMember>| create_upload_members(members, *request),
        ),
{
    let mut body = object_new();
    let ghost empty = json_members(body);
    proof {
        assert(empty.dom() == Set::<Seq<char>>::empty());
    }
    object_insert_text(&mut body, "operationId", request.operation_id.as_str());
    object_insert_text(&mut body, "flavor", request.flavor.as_str());
    insert_string(&mut body, "uploadId", &request.upload_id);
    insert_string(&mut body, "tableName", &request.table_name);
    insert_string(&mut body, "schema", &request.schema);
    if let Some(mode) = request.commit_mode {
        object_insert_text(&mut body, "mode", mode.as_str());
    }
    insert_string(&mut body, "user", &request.trino_user);
    insert_string(&mut body, "authorization", &request.trino_authorization);
    insert_u64(&mut body, "targetFileSizeBytes", request.target_file_size);
    insert_u64(&mut body, "maxStreamBytes", request.max_stream_bytes);
    insert_u64(&mut body, "maxRecordBatchBytes", request.max_record_batch_bytes);
    insert_u64(&mut body, "ttlMs", request.ttl_ms);
    body
}

/// The members of a request to commit an upload.
pub open spec fn commit_upload_members(
    members: Map<Seq<char>, JsonMember>,
    upload_id: Seq<char>,
    mode: CommitMode,
    table_name: Option<Seq<char>>,
    user: Option<Seq<char>>,
    authorization: Option<Seq<char>>,
) -> Map<Seq<char>, JsonMember> {
    let members = members.insert("uploadId"@, JsonMember::Text(upload_id)).insert(
        "mode"@,
        JsonMember::Text(mode.text()),
    );
    with_text(
        with_text(with_text(members, "tableName"@, table_name), "user"@, user),
        "authorization"@,
        authorization,
    )
}

/// The body of a request to commit an upload.
pub fn commit_upload(
    upload_id: &str,
    mode: CommitMode,
    table_name: &Option<String>,
    user: &Option<String>,
    authorization: &Option<String>,
) -> (r: serde_json::Map<String, serde_json::Value>)
    ensures
        is_filled(
            json_members(r),
            |members: Map<Seq<char>, JsonMember>|
                commit_upload_members(
                    members,
                    upload_id@,
                    mode,
                    opt_text(*table_name),
                    opt_text(*user),
                    opt_text(*authorization),
                ),
        ),
{
    let mut body = object_new();
    let ghost empty = json_members(body);
    proof {
        assert(empty.dom() == Set::<Seq<char>>::empty());
    }
    object_insert_text(&mut body, "uploadId", upload_id);
    object_insert_text(&mut body, "mode", mode.as_str());
    insert_string(&mut body, "tableName", table_name);
    insert_string(&mut body, "user", user);
    insert_string(&mut body, "authorization", authorization);
    body
}

/// The members of a request to abort an upload, after an error of the client.
pub open spec fn abort_upload_members(
    members: Map<Seq<char>, JsonMember>,
    upload_id: Seq<char>,
    error: Seq<char>,
) -> Map<Seq<char>, JsonMember> {
    members.insert("uploadId"@, JsonMember::Text(upload_id)).insert(
        "reason"@,
        JsonMember::Text("client upload failed: "@ + error),
    )
}

/// The body of a request to abort an upload, after an error of the client.
pub fn abort_upload(upload_id: &str, error: &str) -> (r: serde_json::Map<
    String,
    serde_json::Value,
>)
    ensures
        is_filled(
            json_members(r),
            |members: Map<Seq<char>, JsonMember>|
                abort_upload_members(members, upload_id@, error@),
        ),
{
    let mut body = object_new();
    let ghost empty = json_members(body);
    proof {
        assert(empty.dom() == Set::<Seq<char>>::empty());
    }
    let mut reason = "client upload failed: ".to_owned();
    reason.append(error);
    object_insert_text(&mut body, "uploadId", upload_id);
    object_insert_text(&mut body, "reason", reason.as_str());
    body
}

/// The members of a request with the token of an administrator, where there is one.
pub open spec fn with_admin_token(
    members: Map<Seq<char>, JsonMember>,
    token: Option<Seq<char>>,
) -> Map<Seq<char>, JsonMember> {
    match token {
        Some(token) => members.insert("adminToken"@, JsonMember::Text(token)),
        None => members,
    }
}

/// Sets the token of an administrator in the body of a request.
pub fn insert_admin_token(
    body: &mut serde_json::Map<String, serde_json::Value>,
    token: &Option<String>,
)
    ensures
        json_members(*final(body)) == with_admin_token(
            json_members(*old(body)),
            opt_text(*token),
        ),
{
    if let Some(token) = token {
        object_insert_text(body, "adminToken", token.as_str());
    }
}

/// The members of a request to create a schema.
pub open spec fn create_schema_members(
    members: Map<Seq<char>, JsonMember>,
    schema_name: Seq<char>,
    location: Option<Seq<char>>,
    user: Option<Seq<char>>,
    authorization: Option<Seq<char>>,
    admin_token: Option<Seq<char>>,
) -> Map<Seq<char>, JsonMember> {
    let members = members.insert("schemaName"@, JsonMember::Text(schema_name));
    let members = with_filled_text(members, "location"@, location);
    let members = with_filled_text(members, "user"@, user);
    let members = with_filled_text(members, "authorization"@, authorization);
    with_filled_text(members, "adminToken"@, admin_token)
}

/// The body of a request to create a schema.
pub fn create_schema(
    schema_name: &str,
    location: &Option<String>,
    user: &Option<String>,
    authorization: &Option<String>,
    admin_token: &Option<String>,
) -> (r: serde_json::Map<String, serde_json::Value>)
    ensures
        is_filled(
            json_members(r),
            |members: Map<Seq<char>, JsonMember>|
                create_schema_members(
                    members,
                    schema_name@,
                    opt_text(*location),
                    opt_text(*user),
                    opt_text(*authorization),
                    opt_text(*admin_token),
                ),
        ),
{
    let mut body = object_new();
    let ghost empty = json_members(body);
    proof {
        assert(empty.dom() == Set::<Seq<char>>::empty());
    }
    object_insert_text(&mut body, "schemaName", schema_name);
    insert_filled_string(&mut body, "location", location);
    insert_filled_string(&mut body, "user", user);
    insert_filled_string(&mut body, "authorization", authorization);
    insert_filled_string(&mut body, "adminToken", admin_token);
    body
}

/// Sets who makes a request in its body.
pub fn insert_caller(
    body: &mut serde_json::Map<String, serde_json::Value>,
    user: &Option<String>,
    authorization: &Option<String>,
    admin_token: &Option<String>,
)
    ensures
        json_members(*final(body)) == with_filled_text(
            with_filled_text(
                with_filled_text(json_members(*old(body)), "user"@, opt_text(*user)),
                "authorization"@,
                opt_text(*authorization),
            ),
            "adminToken"@,
            opt_text(*admin_token),
        ),
{
    insert_filled_string(body, "user", user);
    insert_filled_string(body, "authorization", authorization);
    insert_filled_string(body, "adminToken", admin_token);
}

// ---------------------------------------------------------------------------
// Plans

/// Why the answer to a request for an upload is not used: it counts its tickets wrongly.
pub open spec fn plan_error(
    granted_streams: usize,
    expected_streams: usize,
    tickets: usize,
) -> Option<Seq<char>> {
    if granted_streams != tickets {
        Some(
            "coordinator returned grantedStreams="@ + decimal_of(granted_streams as nat)
                + " but tickets="@ + decimal_of(tickets as nat),
        )
    } else if expected_streams != tickets {
        Some(
            "coordinator returned expectedStreams="@ + decimal_of(expected_streams as nat)
                + " but tickets="@ + decimal_of(tickets as nat),
        )
    } else {
        None
    }
}

fn mismatch(what: &str, count: usize, tickets: usize) -> (r: ErrorChain)
    ensures
        r@ == seq![
            what@ + decimal_of(count as nat) + " but tickets="@ + decimal_of(tickets as nat),
        ],
{
    let mut message = what.to_owned();
    message.append(decimal(count as u128).as_str());
    message.append(" but tickets=");
    message.append(decimal(tickets as u128).as_str());
    ErrorChain::new(message)
}

/// Accepts an answer that has as many tickets as it says.
pub fn check_plan(granted_streams: usize, expected_streams: usize, tickets: usize) -> (r: Result<
    (),
    ErrorChain,
>)
    ensures
        match plan_error(granted_streams, expected_streams, tickets) {
            None => r is Ok,
            Some(message) => r matches Err(error) && error@ == seq![message],
        },
{
    if granted_streams != tickets {
        return Err(mismatch("coordinator returned grantedStreams=", granted_streams, tickets));
    }
    if expected_streams != tickets {
        return Err(mismatch("coordinator returned expectedStreams=", expected_streams, tickets));
    }
    Ok(())
}

/// What a coordinator answers to a request for an upload.
#[derive(Debug)]
pub struct CreateUploadResponse {
    pub upload_id: String,
    pub operation_id: String,
    pub table_name: Option<String>,
    pub status: String,
    pub requested_flavor: String,
    pub granted_streams: usize,
    pub expected_streams: usize,
    pub staging_prefix: String,
    pub target_file_size_bytes: u64,
    pub tickets: Vec<UploadTicket>,
}

/// What a coordinator answers to a request to commit an upload.
#[derive(Debug)]
pub struct CommitUploadResponse {
    pub upload_id: String,
    pub status: String,
    pub table_name: String,
    pub mode: String,
    pub snapshot_id: u64,
    pub record_count: u64,
    pub parquet_object_bytes: u64,
    pub commit_summary: serde_json::Value,
    pub files: Vec<WrittenFile>,
    pub already_committed: bool,
}

/// One file of a committed upload.
#[derive(Clone, Debug)]
pub struct WrittenFile {
    pub stream_id: String,
    pub part_index: i32,
    pub file_path: String,
    pub rows: u64,
    pub batches: u64,
    pub parquet_object_bytes: u64,
}

/// What a reply to an action that cannot be decoded is told with.
pub open spec fn undecoded(action: Seq<char>, words: Seq<char>) -> Seq<Seq<char>> {
    seq!["failed to parse coordinator action "@ + action + " response"@, words]
}

/// Whether `result` is what a reply to an action gives, as the decoder decodes it.
pub open spec fn is_reply_verdict<T, D: Fn(&[u8]) -> Result<T, String>>(
    action: Seq<char>,
    reply: &[u8],
    decode: D,
    result: Result<T, ErrorChain>,
) -> bool {
    exists|decoded: Result<T, String>|
        #[trigger] decode.ensures((reply,), decoded) && match decoded {
            Ok(value) => result == Ok::<T, ErrorChain>(value),
            Err(words) => result matches Err(error) && error@ == undecoded(action, words@),
        }
}

/// The decoded reply to an action.
pub fn parse_reply<T, D: Fn(&[u8]) -> Result<T, String>>(
    action: &str,
    reply: &[u8],
    decode: &D,
) -> (r: Result<T, ErrorChain>)
    requires
        forall|bytes: &[u8]| decode.requires((bytes,)),
    ensures
        is_reply_verdict(action@, reply, *decode, r),
{
    match decode(reply) {
        Ok(value) => Ok(value),
        Err(words) => {
            let ghost cause = words@;
            let mut message = "failed to parse coordinator action ".to_owned();
            message.append(action);
            message.append(" response");
            let error = ErrorChain::new(words).context(message);
            proof {
                assert(error@ == undecoded(action@, cause));
            }
            Err(error)
        },
    }
}

/// Whether `result` is the plan in a reply: one that is decoded and counts its tickets rightly.
pub open spec fn is_plan_verdict<D: Fn(&[u8]) -> Result<CreateUploadResponse, String>>(
    reply: &[u8],
    decode: D,
    result: Result<CreateUploadResponse, ErrorChain>,
) -> bool {
    exists|decoded: Result<CreateUploadResponse, String>|
        #[trigger] decode.ensures((reply,), decoded) && match decoded {
            Ok(plan) => match plan_error(
                plan.granted_streams,
                plan.expected_streams,
                plan.tickets@.len() as usize,
            ) {
                None => result == Ok::<CreateUploadResponse, ErrorChain>(plan),
                Some(message) => result matches Err(error) && error@ == seq![message],
            },
            Err(words) => result matches Err(error) && error@ == undecoded(
                "coordinator.create-upload"@,
                words@,
            ),
        }
}

/// The plan in a reply.
pub fn read_plan<D: Fn(&[u8]) -> Result<CreateUploadResponse, String>>(
    reply: &[u8],
    decode: &D,
) -> (r: Result<CreateUploadResponse, ErrorChain>)
    requires
        forall|bytes: &[u8]| decode.requires((bytes,)),
    ensures
        is_plan_verdict(reply, *decode, r),
{
    let plan = match parse_reply("coordinator.create-upload", reply, decode) {
        Ok(plan) => plan,
        Err(error) => return Err(error),
    };
    match check_plan(plan.granted_streams, plan.expected_streams, plan.tickets.len()) {
        Ok(_) => Ok(plan),
        Err(error) => Err(error),
    }
}

/// The summary of a commit, as it is shown.
pub fn commit_summary_text(commit: &CommitUploadResponse) -> (r: String)
    ensures
        r@ == value_text_of(commit.commit_summary),
{
    value_text(&commit.commit_summary)
}

/// What a worker answered to a stream, as it is shown.
pub fn put_result_text(bytes: &[u8]) -> (r: String)
    ensures
        r@ == lossy_text_of(bytes@),
{
    lossy_text(bytes)
}

/// Accepts an input that has batches.
pub fn check_input(batches: usize) -> (r: Result<(), ErrorChain>)
    ensures
        if batches == 0 {
            r matches Err(error) && error@ == seq!["input did not contain any Arrow batches"@]
        } else {
            r is Ok
        },
{
    if batches == 0 {
        return Err(ErrorChain::new("input did not contain any Arrow batches".to_owned()));
    }
    Ok(())
}

/// Why an upload cannot start: there is no ticket, or the input has fewer batches than there are
/// tickets. `batches` is how many of the first batches were found.
pub open spec fn start_error(tickets: usize, batches: usize) -> Option<Seq<char>> {
    if tickets == 0 {
        Some("coordinator did not return upload tickets"@)
    } else if batches < tickets {
        Some(
            "coordinator returned "@ + decimal_of(tickets as nat)
                + " upload tickets but input only has "@ + decimal_of(batches as nat)
                + " Arrow batches; use a smaller upload flavor or generate smaller batches"@,
        )
    } else {
        None
    }
}

/// Accepts an upload whose every ticket gets a first batch.
pub fn check_start(tickets: usize, batches: usize) -> (r: Result<(), ErrorChain>)
    ensures
        match start_error(tickets, batches) {
            None => r is Ok,
            Some(message) => r matches Err(error) && error@ == seq![message],
        },
{
    if tickets == 0 {
        return Err(ErrorChain::new("coordinator did not return upload tickets".to_owned()));
    }
    if batches < tickets {
        let mut message = "coordinator returned ".to_owned();
        message.append(decimal(tickets as u128).as_str());
        message.append(" upload tickets but input only has ");
        message.append(decimal(batches as u128).as_str());
        message.append(
            " Arrow batches; use a smaller upload flavor or generate smaller batches",
        );
        return Err(ErrorChain::new(message));
    }
    Ok(())
}

/// The streams of an upload take batches in turn.
#[derive(Clone, Copy, Debug)]
pub struct RoundRobin {
    pub streams: usize,
    pub next: usize,
    pub sent: usize,
}

impl RoundRobin {
    /// The next stream is the one whose turn it is after all batches so far.
    pub open spec fn well_formed(self) -> bool {
        0 < self.streams && self.next == (self.sent as int) % (self.streams as int)
    }

    /// No batch sent.
    pub fn new(streams: usize) -> (r: RoundRobin)
        requires
            streams > 0,
        ensures
            r.well_formed(),
            r == (RoundRobin { streams, next: 0, sent: 0 }),
    {
        proof {
            vstd::arithmetic::div_mod::lemma_small_mod(0, streams as nat);
        }
        RoundRobin { streams, next: 0, sent: 0 }
    }

    /// The stream that takes the next batch: the batches go to the streams in turn.
    pub fn assign(&mut self) -> (r: usize)
        requires
            old(self).well_formed(),
            old(self).sent < usize::MAX,
        ensures
            final(self).well_formed(),
            final(self).streams == old(self).streams,
            final(self).sent == old(self).sent + 1,
            r == turn_of(old(self).sent as nat, old(self).streams as nat),
            r < old(self).streams,
    {
        let stream: usize = self.next;
        self.sent = self.sent + 1;
        proof {
            let n = old(self).streams as int;
            let sent = old(self).sent as int;
            vstd::arithmetic::div_mod::lemma_add_mod_noop(sent, 1, n);
            vstd::arithmetic::div_mod::lemma_mod_bound(sent, n);
            if n == 1 {
                assert((sent + 1) % n == 0);
            } else {
                vstd::arithmetic::div_mod::lemma_small_mod(1, n as nat);
                if sent % n + 1 < n {
                    vstd::arithmetic::div_mod::lemma_small_mod((sent % n + 1) as nat, n as nat);
                } else {
                    vstd::arithmetic::div_mod::lemma_mod_self_0(n);
                }
            }
        }
        self.next = if stream + 1 == self.streams {
            0
        } else {
            stream + 1
        };
        stream
    }
}

/// The stream that takes a batch behind `sent` others.
pub open spec fn turn_of(sent: nat, streams: nat) -> int {
    (sent as int) % (streams as int)
}

/// How many of `sent` batches went to a stream.
pub open spec fn share_of(sent: nat, streams: nat, stream: nat) -> nat
    decreases sent,
{
    if sent == 0 {
        0
    } else {
        let before = share_of((sent - 1) as nat, streams, stream);
        if turn_of((sent - 1) as nat, streams) == stream {
            before + 1
        } else {
            before
        }
    }
}

/// Batches are spread evenly: the first streams have at most one batch more than the others.
pub proof fn law_even_spread(sent: nat, streams: nat, stream: nat)
    requires
        stream < streams,
    ensures
        share_of(sent, streams, stream) == sent / streams + (if stream < sent % streams {
            1nat
        } else {
            0nat
        }),
    decreases sent,
{
    let n = streams as int;
    if sent == 0 {
        vstd::arithmetic::div_mod::lemma_small_mod(0, streams);
        vstd::arithmetic::div_mod::lemma_basic_div(0, n);
    } else {
        let before = (sent - 1) as int;
        law_even_spread((sent - 1) as nat, streams, stream);
        vstd::arithmetic::div_mod::lemma_fundamental_div_mod(before, n);
        vstd::arithmetic::div_mod::lemma_mod_bound(before, n);
        let q = before / n;
        let r = before % n;
        if r + 1 < n {
            assert(sent as int == n * q + (r + 1));
            vstd::arithmetic::div_mod::lemma_fundamental_div_mod_converse(
                sent as int,
                n,
                q,
                r + 1,
            );
        } else {
            assert((q + 1) * n == n * q + n) by (nonlinear_arith);
            assert(sent as int == (q + 1) * n + 0);
            vstd::arithmetic::div_mod::lemma_fundamental_div_mod_converse(
                sent as int,
                n,
                q + 1,
                0,
            );
        }
    }
}

// ---------------------------------------------------------------------------
// Names

/// The identifier of an operation that was given none.
pub open spec fn operation_name(uuid: Seq<char>) -> Seq<char> {
    "coordinator-"@ + uuid
}

/// The identifier of an operation: as given, else a random one.
pub fn operation_id(given: &Option<String>) -> (r: String)
    ensures
        given matches Some(id) ==> r@ == id@,
        given is None ==> exists|uuid: Seq<char>|
            #[trigger] is_uuid_text(uuid) && r@ == operation_name(uuid),
{
    match given {
        Some(id) => id.clone(),
        None => {
            let uuid = new_uuid();
            let mut id = "coordinator-".to_owned();
            id.append(uuid.as_str());
            proof {
                assert(is_uuid_text(uuid@) && id@ == operation_name(uuid@));
            }
            id
        },
    }
}

/// The identifier of an upload that was given none.
pub open spec fn upload_name(uuid: Seq<char>) -> Seq<char> {
    "upload-"@ + uuid
}

/// The identifier of an upload: as given, else a random one.
pub fn upload_id(given: &Option<String>) -> (r: String)
    ensures
        given matches Some(id) ==> r@ == id@,
        given is None ==> exists|uuid: Seq<char>|
            #[trigger] is_uuid_text(uuid) && r@ == upload_name(uuid),
{
    match given {
        Some(id) => id.clone(),
        None => {
            let uuid = new_uuid();
            let mut id = "upload-".to_owned();
            id.append(uuid.as_str());
            proof {
                assert(is_uuid_text(uuid@) && id@ == upload_name(uuid@));
            }
            id
        },
    }
}

/// A text without the slashes before its first other character.
pub open spec fn no_leading_slash(s: Seq<char>) -> Seq<char>
    decreases s.len(),
{
    if s.len() > 0 && s[0] == '/' {
        no_leading_slash(s.drop_first())
    } else {
        s
    }
}

/// A text without the slashes behind its last other character.
pub open spec fn no_trailing_slash(s: Seq<char>) -> Seq<char>
    decreases s.len(),
{
    if s.len() > 0 && s.last() == '/' {
        no_trailing_slash(s.drop_last())
    } else {
        s
    }
}

/// The prefix that an upload is staged under: as given, else one that is named after the upload;
/// without slashes at its ends.
pub open spec fn staging_prefix_of(
    given: Option<Seq<char>>,
    upload_id: Seq<char>,
) -> Seq<char> {
    no_trailing_slash(
        no_leading_slash(
            match given {
                Some(prefix) => prefix,
                None => "staging/"@ + upload_id,
            },
        ),
    )
}

/// The prefix that an upload is staged under.
pub fn staging_prefix(given: &Option<String>, upload_id: &str) -> (r: String)
    ensures
        r@ == staging_prefix_of(opt_text(*given), upload_id@),
{
    let raw = match given {
        Some(prefix) => prefix.clone(),
        None => {
            let mut prefix = "staging/".to_owned();
            prefix.append(upload_id);
            prefix
        },
    };
    let chars = chars_of(raw.as_str());
    let mut from: usize = 0;
    proof {
        assert(chars@.skip(0) == chars@);
    }
    while from < chars.len() && chars[from] == '/'
        invariant
            from <= chars@.len(),
            no_leading_slash(chars@) == no_leading_slash(chars@.skip(from as int)),
        decreases chars@.len() - from,
    {
        proof {
            assert(chars@.skip(from as int).drop_first() == chars@.skip(from + 1));
        }
        from += 1;
    }
    let mut to: usize = chars.len();
    proof {
        assert(chars@.skip(from as int) == chars@.subrange(from as int, to as int));
    }
    while to > from && chars[to - 1] == '/'
        invariant
            from <= to <= chars@.len(),
            no_trailing_slash(chars@.skip(from as int)) == no_trailing_slash(
                chars@.subrange(from as int, to as int),
            ),
        decreases to,
    {
        proof {
            assert(chars@.subrange(from as int, to as int).drop_last() == chars@.subrange(
                from as int,
                to - 1,
            ));
        }
        to -= 1;
    }
    string_of(&chars, from, to)
}

/// The name of a stream.
pub open spec fn stream_id_of(index: nat) -> Seq<char> {
    "stream-"@ + padded_of(index, 5)
}

/// The name of a stream.
pub fn stream_id(index: usize) -> (r: String)
    ensures
        r@ == stream_id_of(index as nat),
{
    let mut id = "stream-".to_owned();
    id.append(padded(index as u128, 5).as_str());
    id
}

/// The key that a stream writes to.
pub open spec fn stream_key_of(staging_prefix: Seq<char>, stream_id: Seq<char>) -> Seq<char> {
    staging_prefix + "/"@ + stream_id + ".parquet"@
}

/// The key that a stream writes to.
pub fn stream_key(staging_prefix: &str, stream_id: &str) -> (r: String)
    ensures
        r@ == stream_key_of(staging_prefix@, stream_id@),
{
    let mut key = staging_prefix.to_owned();
    key.append("/");
    key.append(stream_id);
    key.append(".parquet");
    key
}

/// How many streams an upload may have at once: as given, else as many as are asked for; at least
/// one.
pub open spec fn max_upload_streams_of(given: Option<usize>, requested_streams: usize) -> int {
    at_least(
        match given {
            Some(streams) => streams as int,
            None => requested_streams as int,
        },
        1,
    )
}

/// How many streams an upload may have at once: as given, else as many as are asked for; at least
/// one.
pub fn max_upload_streams(given: Option<usize>, requested_streams: usize) -> (r: usize)
    ensures
        r == max_upload_streams_of(given, requested_streams),
{
    match given {
        Some(streams) => max_usize(streams, 1),
        None => max_usize(requested_streams, 1),
    }
}

/// A ticket for one stream of an upload.
#[derive(Clone, Debug)]
pub struct UploadTicket {
    pub worker_id: String,
    pub flight_uri: String,
    pub descriptor_path: String,
    pub attempt_id: String,
    pub upload_id: String,
    pub stream_id: String,
    pub app_metadata: String,
}

/// What is told of the ticket of a stream.
pub open spec fn ticket_text_of(ticket: UploadTicket) -> Seq<char> {
    "uploadId="@ + ticket.upload_id@ + " streamId="@ + ticket.stream_id@ + " attemptId="@
        + ticket.attempt_id@ + " worker="@ + ticket.worker_id@ + " uri="@ + ticket.flight_uri@
        + " path="@ + ticket.descriptor_path@
}

/// What the failure of a stream is told with.
pub fn put_context_text(ticket: &UploadTicket) -> (r: String)
    ensures
        r@ == ticket_text_of(*ticket),
{
    let mut text = "uploadId=".to_owned();
    text.append(ticket.upload_id.as_str());
    text.append(" streamId=");
    text.append(ticket.stream_id.as_str());
    text.append(" attemptId=");
    text.append(ticket.attempt_id.as_str());
    text.append(" worker=");
    text.append(ticket.worker_id.as_str());
    text.append(" uri=");
    text.append(ticket.flight_uri.as_str());
    text.append(" path=");
    text.append(ticket.descriptor_path.as_str());
    text
}

// ---------------------------------------------------------------------------
// Results

/// What a stream of an upload came to.
#[derive(Debug)]
pub struct StreamResult {
    pub stream_id: String,
    pub worker_id: String,
    pub flight_uri: String,
    pub key: String,
    pub elapsed_ms: u128,
    pub put_results: Vec<String>,
}

/// Whether a text comes before another in the order of their characters.
pub open spec fn comes_before(a: Seq<char>, b: Seq<char>) -> bool
    decreases a.len(),
{
    if b.len() == 0 {
        false
    } else if a.len() == 0 {
        true
    } else if a[0] != b[0] {
        a[0] < b[0]
    } else {
        comes_before(a.drop_first(), b.drop_first())
    }
}

fn before(a: &str, b: &str) -> (r: bool)
    ensures
        r == comes_before(a@, b@),
{
    let left = chars_of(a);
    let right = chars_of(b);
    let mut i: usize = 0;
    proof {
        assert(a@.skip(0) == a@);
        assert(b@.skip(0) == b@);
    }
    while i < left.len() && i < right.len()
        invariant
            left@ == a@,
            right@ == b@,
            i <= left@.len(),
            i <= right@.len(),
            comes_before(a@, b@) == comes_before(a@.skip(i as int), b@.skip(i as int)),
        decreases left@.len() - i,
    {
        proof {
            assert(a@.skip(i as int).drop_first() == a@.skip(i + 1));
            assert(b@.skip(i as int).drop_first() == b@.skip(i + 1));
        }
        if left[i] != right[i] {
            return left[i] < right[i];
        }
        i += 1;
    }
    i < right.len()
}

/// Results in order of their streams with one more among them: behind those that come before it.
pub open spec fn insert_result(sorted: Seq<StreamResult>, result: StreamResult) -> Seq<
    StreamResult,
>
    decreases sorted.len(),
{
    if sorted.len() == 0 {
        seq![result]
    } else if comes_before(sorted[0].stream_id@, result.stream_id@) {
        seq![sorted[0]] + insert_result(sorted.drop_first(), result)
    } else {
        seq![result] + sorted
    }
}

/// Results in order of their streams; of one stream, in the order in which they are.
pub open spec fn sorted_results(results: Seq<StreamResult>) -> Seq<StreamResult>
    decreases results.len(),
{
    if results.len() == 0 {
        Seq::empty()
    } else {
        insert_result(sorted_results(results.drop_first()), results[0])
    }
}

proof fn lemma_insert_at(sorted: Seq<StreamResult>, result: StreamResult, at: int)
    requires
        0 <= at <= sorted.len(),
        forall|i: int|
            0 <= i < at ==> comes_before(
                (#[trigger] sorted[i]).stream_id@,
                result.stream_id@,
            ),
        at < sorted.len() ==> !comes_before(sorted[at].stream_id@, result.stream_id@),
    ensures
        insert_result(sorted, result) == sorted.insert(at, result),
    decreases sorted.len(),
{
    if sorted.len() == 0 {
        assert(sorted.insert(at, result) == seq![result]);
    } else if at == 0 {
        assert(sorted.insert(at, result) == seq![result] + sorted);
    } else {
        let rest = sorted.drop_first();
        assert(comes_before(sorted[0].stream_id@, result.stream_id@));
        assert forall|i: int| 0 <= i < at - 1 implies comes_before(
            (#[trigger] rest[i]).stream_id@,
            result.stream_id@,
        ) by {
            assert(rest[i] == sorted[i + 1]);
        }
        lemma_insert_at(rest, result, at - 1);
        assert(sorted.insert(at, result) == seq![sorted[0]] + rest.insert(at - 1, result));
    }
}

/// Whether results are in order of their streams.
pub open spec fn in_stream_order(results: Seq<StreamResult>) -> bool {
    forall|i: int, j: int|
        0 <= i < j < results.len() ==> !comes_before(
            (#[trigger] results[j]).stream_id@,
            (#[trigger] results[i]).stream_id@,
        )
}

/// Whether a result is that of a stream.
pub open spec fn stream_is(stream_id: Seq<char>) -> spec_fn(StreamResult) -> bool {
    |result: StreamResult| result.stream_id@ == stream_id
}

/// The results of one stream.
pub open spec fn of_stream(results: Seq<StreamResult>, stream_id: Seq<char>) -> Seq<StreamResult> {
    results.filter(stream_is(stream_id))
}

/// Of two texts at most one comes before the other, and what does not come before a text does not
/// come before a later one.
proof fn lemma_order(a: Seq<char>, b: Seq<char>, c: Seq<char>)
    ensures
        comes_before(a, b) ==> !comes_before(b, a),
        !comes_before(b, a) && !comes_before(c, b) ==> !comes_before(c, a),
    decreases a.len() + b.len() + c.len(),
{
    if a.len() > 0 && b.len() > 0 && c.len() > 0 {
        lemma_order(a.drop_first(), b.drop_first(), c.drop_first());
    } else if a.len() > 0 && b.len() > 0 {
        lemma_order(a.drop_first(), b.drop_first(), c);
    }
}

proof fn lemma_filter_one(result: StreamResult, stream_id: Seq<char>)
    ensures
        of_stream(seq![result], stream_id) == (if result.stream_id@ == stream_id {
            seq![result]
        } else {
            Seq::<StreamResult>::empty()
        }),
{
    reveal_with_fuel(Seq::filter, 2);
    assert(seq![result].drop_last() == Seq::<StreamResult>::empty());
}

proof fn lemma_insert_keeps(
    sorted: Seq<StreamResult>,
    result: StreamResult,
    stream_id: Seq<char>,
)
    requires
        in_stream_order(sorted),
    ensures
        in_stream_order(insert_result(sorted, result)),
        insert_result(sorted, result).len() == sorted.len() + 1,
        forall|i: int|
            0 <= i < insert_result(sorted, result).len() ==> (
            #[trigger] insert_result(sorted, result)[i]) == result || sorted.contains(
                insert_result(sorted, result)[i],
            ),
        of_stream(insert_result(sorted, result), stream_id) == (if result.stream_id@
            == stream_id {
            seq![result] + of_stream(sorted, stream_id)
        } else {
            of_stream(sorted, stream_id)
        }),
    decreases sorted.len(),
{
    let chosen = stream_is(stream_id);
    let whole = insert_result(sorted, result);
    let one = seq![result];
    let none = Seq::<StreamResult>::empty();
    lemma_filter_one(result, stream_id);
    assert(none + of_stream(sorted, stream_id) == of_stream(sorted, stream_id));
    if sorted.len() == 0 {
        assert(of_stream(sorted, stream_id) == none) by {
            reveal_with_fuel(Seq::filter, 1);
        }
        assert(one + none == one);
    } else if !comes_before(sorted[0].stream_id@, result.stream_id@) {
        Seq::filter_distributes_over_add(one, sorted, chosen);
        assert forall|i: int, j: int| 0 <= i < j < whole.len() implies !comes_before(
            (#[trigger] whole[j]).stream_id@,
            (#[trigger] whole[i]).stream_id@,
        ) by {
            assert(whole[j] == sorted[j - 1]);
            if i > 0 {
                assert(whole[i] == sorted[i - 1]);
            } else if j > 1 {
                assert(!comes_before(sorted[j - 1].stream_id@, sorted[0].stream_id@));
                lemma_order(result.stream_id@, sorted[0].stream_id@, sorted[j - 1].stream_id@);
            }
        }
        assert forall|i: int| 0 <= i < whole.len() implies (#[trigger] whole[i]) == result
            || sorted.contains(whole[i]) by {
            if i > 0 {
                assert(whole[i] == sorted[i - 1]);
            }
        }
    } else {
        let first = sorted[0];
        let head = seq![first];
        let rest = sorted.drop_first();
        let tail = insert_result(rest, result);
        assert forall|i: int, j: int| 0 <= i < j < rest.len() implies !comes_before(
            (#[trigger] rest[j]).stream_id@,
            (#[trigger] rest[i]).stream_id@,
        ) by {
            assert(rest[i] == sorted[i + 1]);
            assert(rest[j] == sorted[j + 1]);
        }
        lemma_insert_keeps(rest, result, stream_id);
        lemma_filter_one(first, stream_id);
        lemma_order(first.stream_id@, result.stream_id@, first.stream_id@);
        Seq::filter_distributes_over_add(head, tail, chosen);
        Seq::filter_distributes_over_add(head, rest, chosen);
        assert(head + rest == sorted);
        assert(whole == head + tail);
        if result.stream_id@ == stream_id {
            assert(head.filter(chosen) == none);
            assert(none + of_stream(tail, stream_id) == of_stream(tail, stream_id));
            assert(none + of_stream(rest, stream_id) == of_stream(rest, stream_id));
        }
        assert forall|i: int| 0 <= i < whole.len() implies (#[trigger] whole[i]) == result
            || sorted.contains(whole[i]) by {
            if i > 0 {
                assert(whole[i] == tail[i - 1]);
                if tail[i - 1] != result {
                    let k = choose|k: int| 0 <= k < rest.len() && rest[k] == tail[i - 1];
                    assert(sorted[k + 1] == tail[i - 1]);
                }
            } else {
                assert(whole[0] == first);
            }
        }
        assert forall|i: int, j: int| 0 <= i < j < whole.len() implies !comes_before(
            (#[trigger] whole[j]).stream_id@,
            (#[trigger] whole[i]).stream_id@,
        ) by {
            assert(whole[j] == tail[j - 1]);
            if i == 0 {
                if tail[j - 1] != result {
                    let k = choose|k: int| 0 <= k < rest.len() && rest[k] == tail[j - 1];
                    assert(sorted[k + 1] == tail[j - 1]);
                    assert(!comes_before(sorted[k + 1].stream_id@, sorted[0].stream_id@));
                }
            } else {
                assert(whole[i] == tail[i - 1]);
            }
        }
    }
}

/// Sorting brings results in order of their streams, keeps all of them, and keeps the order of
/// those of one stream.
pub proof fn law_sort_results(results: Seq<StreamResult>, stream_id: Seq<char>)
    ensures
        in_stream_order(sorted_results(results)),
        sorted_results(results).len() == results.len(),
        of_stream(sorted_results(results), stream_id) == of_stream(results, stream_id),
    decreases results.len(),
{
    if results.len() > 0 {
        let rest = results.drop_first();
        law_sort_results(rest, stream_id);
        lemma_insert_keeps(sorted_results(rest), results[0], stream_id);
        let chosen = stream_is(stream_id);
        lemma_filter_one(results[0], stream_id);
        Seq::filter_distributes_over_add(seq![results[0]], rest, chosen);
        assert(seq![results[0]] + rest == results);
        assert(Seq::<StreamResult>::empty() + of_stream(rest, stream_id) == of_stream(
            rest,
            stream_id,
        ));
    }
}

/// Brings results in order of their streams.
pub fn sort_results(results: Vec<StreamResult>) -> (r: Vec<StreamResult>)
    ensures
        r@ == sorted_results(results@),
{
    let ghost all = results@;
    let mut results = results;
    let mut sorted: Vec<StreamResult> = Vec::new();
    proof {
        assert(all.skip(all.len() as int) == Seq::<StreamResult>::empty());
        assert(all.take(all.len() as int) == all);
    }
    while results.len() > 0
        invariant
            results@.len() <= all.len(),
            results@ == all.take(results@.len() as int),
            sorted@ == sorted_results(all.skip(results@.len() as int)),
        decreases results@.len(),
    {
        let ghost left = results@.len() as int;
        let result = results.pop().unwrap();
        let mut at: usize = 0;
        while at < sorted.len() && before(
            sorted[at].stream_id.as_str(),
            result.stream_id.as_str(),
        )
            invariant
                at <= sorted@.len(),
                forall|i: int|
                    0 <= i < at ==> comes_before(
                        (#[trigger] sorted@[i]).stream_id@,
                        result.stream_id@,
                    ),
            decreases sorted@.len() - at,
        {
            at += 1;
        }
        proof {
            lemma_insert_at(sorted@, result, at as int);
            assert(all.skip(left - 1).drop_first() == all.skip(left));
            assert(all.skip(left - 1)[0] == result);
            assert(results@ == all.take(left - 1));
        }
        sorted.insert(at, result);
    }
    proof {
        assert(all.skip(0) == all);
    }
    sorted
}

/// The table of a commit: as the coordinator named it, else as the client did.
pub open spec fn commit_table_of(
    planned: Option<Seq<char>>,
    given: Option<Seq<char>>,
) -> Option<Seq<char>> {
    if planned is Some {
        planned
    } else {
        given
    }
}

/// The table of a commit: as the coordinator named it, else as the client did.
pub fn commit_table(planned: &Option<String>, given: &Option<String>) -> (r: Option<String>)
    ensures
        opt_text(r) == commit_table_of(opt_text(*planned), opt_text(*given)),
{
    match planned {
        Some(name) => Some(name.clone()),
        None => copy_opt(given),
    }
}

// ---------------------------------------------------------------------------
// Laws of requests

/// Whether a body says a text under a name.
pub open spec fn says(
    members: Map<Seq<char>, JsonMember>,
    name: Seq<char>,
    text: Seq<char>,
) -> bool {
    members.contains_key(name) && members[name] == JsonMember::Text(text)
}

/// Whether a body says a text under a name exactly where the text is there and more than white
/// space.
pub open spec fn says_if_filled(
    members: Map<Seq<char>, JsonMember>,
    name: Seq<char>,
    text: Option<Seq<char>>,
) -> bool {
    if text is Some && trim_of(text->0).len() > 0 {
        says(members, name, text->0)
    } else {
        !members.contains_key(name)
    }
}

/// Whether a body says a text under a name exactly where the text is there and not empty.
pub open spec fn says_if_any(
    members: Map<Seq<char>, JsonMember>,
    name: Seq<char>,
    text: Option<Seq<char>>,
) -> bool {
    if text is Some && text->0.len() > 0 {
        says(members, name, text->0)
    } else {
        !members.contains_key(name)
    }
}

/// Whether a body gives a number under a name exactly where there is one.
pub open spec fn gives(
    members: Map<Seq<char>, JsonMember>,
    name: Seq<char>,
    count: Option<u64>,
) -> bool {
    match count {
        Some(count) => members.contains_key(name) && members[name] == JsonMember::Count(count),
        None => !members.contains_key(name),
    }
}

proof fn lemma_request_names()
    ensures
        "operationId"@.len() == 11 && "operationId"@[0] == 'o',
        "flavor"@.len() == 6 && "flavor"@[0] == 'f',
        "uploadId"@.len() == 8,
        "tableName"@.len() == 9,
        "schema"@.len() == 6 && "schema"@[0] == 's',
        "mode"@.len() == 4 && "mode"@[0] == 'm',
        "user"@.len() == 4 && "user"@[0] == 'u',
        "authorization"@.len() == 13,
        "targetFileSizeBytes"@.len() == 19 && "targetFileSizeBytes"@[0] == 't',
        "maxStreamBytes"@.len() == 14,
        "maxRecordBatchBytes"@.len() == 19 && "maxRecordBatchBytes"@[0] == 'm',
        "ttlMs"@.len() == 5,
        "reason"@.len() == 6 && "reason"@[0] == 'r',
        "schemaName"@.len() == 10 && "schemaName"@[0] == 's',
        "location"@.len() == 8,
        "adminToken"@.len() == 10 && "adminToken"@[0] == 'a',
{
    reveal_strlit("operationId");
    reveal_strlit("flavor");
    reveal_strlit("uploadId");
    reveal_strlit("tableName");
    reveal_strlit("schema");
    reveal_strlit("mode");
    reveal_strlit("user");
    reveal_strlit("authorization");
    reveal_strlit("targetFileSizeBytes");
    reveal_strlit("maxStreamBytes");
    reveal_strlit("maxRecordBatchBytes");
    reveal_strlit("ttlMs");
    reveal_strlit("reason");
    reveal_strlit("schemaName");
    reveal_strlit("location");
    reveal_strlit("adminToken");
}

/// A request for an upload says what the client asks for, each thing under its own name, and what
/// the client does not say it leaves out.
pub proof fn law_upload_request_says(
    members: Map<Seq<char>, JsonMember>,
    request: CreateUploadRequest,
)
    requires
        is_filled(
            members,
            |members: Map<Seq<char>, JsonMember>| create_upload_members(members, request),
        ),
    ensures
        says(members, "operationId"@, request.operation_id@),
        says(members, "flavor"@, request.flavor@),
        says_if_filled(members, "uploadId"@, opt_text(request.upload_id)),
        says_if_filled(members, "tableName"@, opt_text(request.table_name)),
        says_if_filled(members, "schema"@, opt_text(request.schema)),
        request.commit_mode is None ==> !members.contains_key("mode"@),
        request.commit_mode == Some(CommitMode::Append) ==> says(members, "mode"@, "append"@),
        request.commit_mode == Some(CommitMode::Overwrite) ==> says(
            members,
            "mode"@,
            "overwrite"@,
        ),
        says_if_filled(members, "user"@, opt_text(request.trino_user)),
        says_if_filled(members, "authorization"@, opt_text(request.trino_authorization)),
        gives(members, "targetFileSizeBytes"@, request.target_file_size),
        gives(members, "maxStreamBytes"@, request.max_stream_bytes),
        gives(members, "maxRecordBatchBytes"@, request.max_record_batch_bytes),
        gives(members, "ttlMs"@, request.ttl_ms),
{
    lemma_request_names();
    let empty = choose|empty: Map<Seq<char>, JsonMember>|
        (#[trigger] empty.dom()) == Set::<Seq<char>>::empty() && members == create_upload_members(
            empty,
            request,
        );
    assert(members == create_upload_members(empty, request));
    assert forall|name: Seq<char>| !empty.contains_key(name) by {
        assert(!empty.dom().contains(name));
    }
}

/// A request to commit an upload says which upload is committed, how, and to which table, and who
/// asks; a request to abort it says which upload, and why.
pub proof fn law_commit_and_abort_say(
    commit: Map<Seq<char>, JsonMember>,
    abort: Map<Seq<char>, JsonMember>,
    upload_id: Seq<char>,
    mode: CommitMode,
    table_name: Option<Seq<char>>,
    user: Option<Seq<char>>,
    authorization: Option<Seq<char>>,
    error: Seq<char>,
)
    requires
        is_filled(
            commit,
            |members: Map<Seq<char>, JsonMember>|
                commit_upload_members(members, upload_id, mode, table_name, user, authorization),
        ),
        is_filled(
            abort,
            |members: Map<Seq<char>, JsonMember>| abort_upload_members(members, upload_id, error),
        ),
    ensures
        says(commit, "uploadId"@, upload_id),
        mode == CommitMode::Append ==> says(commit, "mode"@, "append"@),
        mode == CommitMode::Overwrite ==> says(commit, "mode"@, "overwrite"@),
        says_if_filled(commit, "tableName"@, table_name),
        says_if_filled(commit, "user"@, user),
        says_if_filled(commit, "authorization"@, authorization),
        says(abort, "uploadId"@, upload_id),
        says(abort, "reason"@, "client upload failed: "@ + error),
{
    lemma_request_names();
    let empty = choose|empty: Map<Seq<char>, JsonMember>|
        (#[trigger] empty.dom()) == Set::<Seq<char>>::empty() && commit == commit_upload_members(
            empty,
            upload_id,
            mode,
            table_name,
            user,
            authorization,
        );
    assert(commit == commit_upload_members(
        empty,
        upload_id,
        mode,
        table_name,
        user,
        authorization,
    ));
    assert forall|name: Seq<char>| !empty.contains_key(name) by {
        assert(!empty.dom().contains(name));
    }
    let other = choose|empty: Map<Seq<char>, JsonMember>|
        (#[trigger] empty.dom()) == Set::<Seq<char>>::empty() && abort == abort_upload_members(
            empty,
            upload_id,
            error,
        );
    assert(abort == abort_upload_members(other, upload_id, error));
}

/// A request to create a schema says its name, where it lies, and who asks, each under its own
/// name, and leaves out what is empty.
pub proof fn law_schema_request_says(
    members: Map<Seq<char>, JsonMember>,
    schema_name: Seq<char>,
    location: Option<Seq<char>>,
    user: Option<Seq<char>>,
    authorization: Option<Seq<char>>,
    admin_token: Option<Seq<char>>,
)
    requires
        is_filled(
            members,
            |members: Map<Seq<char>, JsonMember>|
                create_schema_members(
                    members,
                    schema_name,
                    location,
                    user,
                    authorization,
                    admin_token,
                ),
        ),
    ensures
        says(members, "schemaName"@, schema_name),
        says_if_any(members, "location"@, location),
        says_if_any(members, "user"@, user),
        says_if_any(members, "authorization"@, authorization),
        says_if_any(members, "adminToken"@, admin_token),
{
    lemma_request_names();
    let empty = choose|empty: Map<Seq<char>, JsonMember>|
        (#[trigger] empty.dom()) == Set::<Seq<char>>::empty() && members == create_schema_members(
            empty,
            schema_name,
            location,
            user,
            authorization,
            admin_token,
        );
    assert(members == create_schema_members(
        empty,
        schema_name,
        location,
        user,
        authorization,
        admin_token,
    ));
    assert forall|name: Seq<char>| !empty.contains_key(name) by {
        assert(!empty.dom().contains(name));
    }
}

/// A plan is used exactly where it has as many tickets as it grants and as it expects, and an
/// upload starts exactly where it has a ticket, and a batch for each.
pub proof fn law_usable_plans(
    granted_streams: usize,
    expected_streams: usize,
    tickets: usize,
    batches: usize,
)
    ensures
        plan_error(granted_streams, expected_streams, tickets) is None <==> granted_streams
            == tickets && expected_streams == tickets,
        start_error(tickets, batches) is None <==> 0 < tickets <= batches,
{
}

/// Every stream of an upload has a name and a key of its own: no two of them share one, and the
/// keys lie under the staging prefix.
pub proof fn law_streams_are_apart(staging_prefix: Seq<char>, index: nat, other: nat)
    ensures
        stream_id_of(index) == stream_id_of(other) ==> index == other,
        stream_key_of(staging_prefix, stream_id_of(index)) == stream_key_of(
            staging_prefix,
            stream_id_of(other),
        ) ==> index == other,
        has_prefix(
            stream_key_of(staging_prefix, stream_id_of(index)),
            staging_prefix + "/"@,
        ),
        has_suffix(stream_key_of(staging_prefix, stream_id_of(index)), ".parquet"@),
        has_prefix(stream_id_of(index), "stream-"@),
{
    let one = stream_id_of(index);
    let two = stream_id_of(other);
    let name = "stream-"@;
    let at = name.len() as int;
    assert(one.take(at) == name);
    assert(one.skip(at) == padded_of(index, 5));
    assert(two.skip(at) == padded_of(other, 5));
    crate::number::law_decimal_reads_back(index, other, 5, 0);
    let front = staging_prefix + "/"@;
    let first = stream_key_of(staging_prefix, one);
    let second = stream_key_of(staging_prefix, two);
    let from = front.len() as int;
    assert(first.take(from) == front);
    assert(first.skip(first.len() - ".parquet"@.len()) == ".parquet"@);
    if first == second {
        assert(one.len() == two.len());
        assert(one == first.subrange(from, from + one.len()));
        assert(two == second.subrange(from, from + two.len()));
    }
}

/// The prefix of an upload has no slash at either end, and is what was given but for those.
pub proof fn law_staging_prefix(given: Option<Seq<char>>, upload_id: Seq<char>)
    ensures
        ({
            let prefix = staging_prefix_of(given, upload_id);
            &&& prefix.len() > 0 ==> prefix[0] != '/' && prefix.last() != '/'
            &&& given matches Some(raw) ==> raw.len() > 0 && raw[0] != '/' && raw.last() != '/'
                ==> prefix == raw
            &&& given is None && upload_id.len() > 0 && upload_id.last() != '/' ==> prefix
                == "staging/"@ + upload_id
        }),
{
    reveal_strlit("staging/");
    let raw = match given {
        Some(prefix) => prefix,
        None => "staging/"@ + upload_id,
    };
    lemma_no_leading(raw);
    lemma_no_trailing(no_leading_slash(raw));
}

proof fn lemma_no_leading(s: Seq<char>)
    ensures
        no_leading_slash(s).len() > 0 ==> no_leading_slash(s)[0] != '/',
    decreases s.len(),
{
    if s.len() > 0 && s[0] == '/' {
        lemma_no_leading(s.drop_first());
    }
}

proof fn lemma_no_trailing(s: Seq<char>)
    ensures
        no_trailing_slash(s).len() > 0 ==> no_trailing_slash(s).last() != '/' && s.len() > 0
            && no_trailing_slash(s)[0] == s[0],
    decreases s.len(),
{
    if s.len() > 0 && s.last() == '/' {
        lemma_no_trailing(s.drop_last());
    }
}

/// An upload has as many streams as are given, else as are asked for, and never none; its table is
/// the one that the coordinator planned, and the client's only where it planned none.
pub proof fn law_given_goes_first(
    given: Option<usize>,
    requested: usize,
    planned: Option<Seq<char>>,
    table: Option<Seq<char>>,
)
    ensures
        given matches Some(streams) ==> streams >= 1 ==> max_upload_streams_of(given, requested)
            == streams,
        given is None && requested >= 1 ==> max_upload_streams_of(given, requested) == requested,
        max_upload_streams_of(given, requested) >= 1,
        given == Some(0usize) || given is None && requested == 0 ==> max_upload_streams_of(
            given,
            requested,
        ) == 1,
        planned is Some ==> commit_table_of(planned, table) == planned,
        planned is None ==> commit_table_of(planned, table) == table,
{
}

/// A size that is set counts, in bytes, and the default where none is set; one that cannot be read
/// is an error that names the variable. A client takes messages of up to 256 MiB unless told
/// otherwise.
pub proof fn law_size_settings(
    vars: Seq<(Seq<char>, Seq<char>)>,
    key: Seq<char>,
    default: usize,
    n: usize,
)
    ensures
        var_of(vars, key) is None ==> env_size_of(vars, key, default) == Ok::<
            usize,
            Seq<Seq<char>>,
        >(default),
        var_of(vars, key) matches Some(text) ==> (size_of(text) == Ok::<usize, Seq<Seq<char>>>(n)
            ==> env_size_of(vars, key, default) == Ok::<usize, Seq<Seq<char>>>(n)),
        var_of(vars, key) matches Some(text) ==> (size_of(text) is Err ==> (env_size_of(
            vars,
            key,
            default,
        ) matches Err(messages) && messages[0] == "invalid "@ + key)),
        var_of(vars, "FLIGHT_MAX_MESSAGE_SIZE"@) is None ==> (client_settings_of(vars) matches Ok(
            settings,
        ) && settings.max_message_size == 256 * 1024 * 1024),
        var_of(vars, "FLIGHT_MAX_MESSAGE_SIZE"@) matches Some(text) ==> (size_of(text) == Ok::<
            usize,
            Seq<Seq<char>>,
        >(n) ==> (client_settings_of(vars) matches Ok(settings) && settings.max_message_size == n)),
{
}

/// An option that is not given sets no size, and one that is given sets the size it names.
pub proof fn law_size_options(name: Seq<char>, text: Seq<char>, n: usize)
    ensures
        optional_size_of(name, None) == Ok::<Option<u64>, Seq<Seq<char>>>(None),
        size_of(text) == Ok::<usize, Seq<Seq<char>>>(n) ==> (optional_size_of(name, Some(text))
            matches Ok(Some(size)) && size == n),
        size_of(text) is Err ==> (optional_size_of(name, Some(text)) matches Err(messages)
            && messages[0] == "failed to parse "@ + name),
{
}

/// A text is never taken from two places: where it is given inline and in a file that is an error,
/// and else it is the one that was given.
pub proof fn law_text_sources(
    inline: Option<Seq<char>>,
    has_file: bool,
    clash: Seq<char>,
    result: Result<TextSource, ErrorChain>,
)
    requires
        is_text_source(inline, has_file, clash, result),
    ensures
        result is Err <==> inline is Some && has_file,
        result matches Ok(TextSource::Inline(found)) ==> inline == Some(found@),
        result matches Ok(TextSource::File) ==> has_file && inline is None,
        result matches Ok(TextSource::Nowhere) ==> !has_file && inline is None,
{
}

/// The first batch goes to the first stream, each further one to the next stream, and behind the
/// last stream the first takes its turn again.
pub proof fn law_streams_take_turns(sent: nat, streams: nat)
    requires
        streams > 0,
    ensures
        turn_of(0, streams) == 0,
        0 <= turn_of(sent, streams) < streams,
        turn_of(sent, streams) + 1 < streams ==> turn_of(sent + 1, streams) == turn_of(sent, streams)
            + 1,
        turn_of(sent, streams) + 1 == streams ==> turn_of(sent + 1, streams) == 0,
{
    let n = streams as int;
    vstd::arithmetic::div_mod::lemma_small_mod(0, streams);
    vstd::arithmetic::div_mod::lemma_mod_bound(sent as int, n);
    vstd::arithmetic::div_mod::lemma_fundamental_div_mod(sent as int, n);
    let q = sent as int / n;
    let r = sent as int % n;
    if r + 1 < n {
        assert(q * n == n * q) by (nonlinear_arith);
        assert(sent + 1 == q * n + (r + 1));
        vstd::arithmetic::div_mod::lemma_fundamental_div_mod_converse(
            (sent + 1) as int,
            n,
            q,
            r + 1,
        );
    } else {
        assert((q + 1) * n == n * q + n) by (nonlinear_arith);
        assert(sent + 1 == (q + 1) * n + 0);
        vstd::arithmetic::div_mod::lemma_fundamental_div_mod_converse(
            (sent + 1) as int,
            n,
            q + 1,
            0,
        );
    }
}

/// A reply that was decoded is taken as it is, and one that was not is an error that names the
/// action.
pub proof fn law_replies<T, D: Fn(&[u8]) -> Result<T, String>>(
    action: Seq<char>,
    reply: &[u8],
    decode: D,
    result: Result<T, ErrorChain>,
)
    requires
        is_reply_verdict(action, reply, decode, result),
    ensures
        result matches Ok(value) ==> decode.ensures((reply,), Ok(value)),
        result matches Err(error) ==> error@.len() == 2 && error@[0]
            == "failed to parse coordinator action "@ + action + " response"@ && exists|
            words: String,
        | #[trigger] decode.ensures((reply,), Err(words)) && error@[1] == words@,
{
}

/// A plan that is taken was decoded as it is and has one ticket for each stream that was granted
/// and is expected.
pub proof fn law_plans<D: Fn(&[u8]) -> Result<CreateUploadResponse, String>>(
    reply: &[u8],
    decode: D,
    result: Result<CreateUploadResponse, ErrorChain>,
)
    requires
        is_plan_verdict(reply, decode, result),
    ensures
        result matches Ok(plan) ==> decode.ensures((reply,), Ok(plan)) && (plan.tickets@.len()
            <= usize::MAX ==> plan.granted_streams == plan.tickets@.len() && plan.expected_streams
            == plan.tickets@.len()),
{
    if let Ok(plan) = result {
        law_usable_plans(
            plan.granted_streams,
            plan.expected_streams,
            plan.tickets@.len() as usize,
            0,
        );
    }
}

/// What is told of a ticket names its upload, its stream, its attempt, its worker and where it
/// leads, each behind its own label.
pub proof fn law_ticket_text(ticket: UploadTicket)
    ensures
        has_prefix(ticket_text_of(ticket), "uploadId="@ + ticket.upload_id@ + " streamId="@),
        has_suffix(ticket_text_of(ticket), " path="@ + ticket.descriptor_path@),
        exists|front: Seq<char>, back: Seq<char>|
            ticket_text_of(ticket) == #[trigger] (front + (" streamId="@ + ticket.stream_id@
                + " attemptId="@ + ticket.attempt_id@ + " worker="@ + ticket.worker_id@ + " uri="@
                + ticket.flight_uri@) + back),
{
    let text = ticket_text_of(ticket);
    let first = "uploadId="@ + ticket.upload_id@;
    let middle = " streamId="@ + ticket.stream_id@ + " attemptId="@ + ticket.attempt_id@
        + " worker="@ + ticket.worker_id@ + " uri="@ + ticket.flight_uri@;
    let last = " path="@ + ticket.descriptor_path@;
    assert(text == first + middle + last);
    let start = first + " streamId="@;
    assert(text.take(start.len() as int) == start);
    assert(text.skip(text.len() - last.len()) == last);
}

/// The token of an administrator stands under its own name where there is one, and nothing else of
/// a request changes.
pub proof fn law_admin_token(
    members: Map<Seq<char>, JsonMember>,
    token: Seq<char>,
    other: Seq<char>,
)
    ensures
        with_admin_token(members, None) == members,
        says(with_admin_token(members, Some(token)), "adminToken"@, token),
        other != "adminToken"@ ==> (with_admin_token(members, Some(token)).contains_key(other)
            <==> members.contains_key(other)),
        other != "adminToken"@ && members.contains_key(other) ==> with_admin_token(
            members,
            Some(token),
        )[other] == members[other],
{
}

}
