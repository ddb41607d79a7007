//! Identifiers that join a failure's answer with its logs, and the fields of a log line.

use vstd::prelude::*;
use vstd::utf8::{encode_utf8, is_ascii_chars};

use crate::clock::{timestamp_ms, timestamp_of};
use crate::env::{var_of, Environment};
use crate::json::{json_members, object_insert_text, object_new, JsonMember};
use crate::number::{decimal, decimal_of};
use crate::status::{
    first_value, other_than, without_name, Code, Metadata, Status, StatusView,
};
use crate::text::{
    ascii_lower, ascii_lower_of, ends_with, has_suffix, opt_text, replace, replace_of, trim, trim_of,
};
use crate::util::{is_uuid_text, new_uuid};

verus! {

pub const ERROR_ID_METADATA: &'static str = "x-error-id";

pub const OPERATION_ID_METADATA: &'static str = "x-operation-id";

pub const UPLOAD_ID_METADATA: &'static str = "x-upload-id";

pub const STREAM_ID_METADATA: &'static str = "x-stream-id";

pub const ATTEMPT_ID_METADATA: &'static str = "x-attempt-id";

/// What a request is about.
#[derive(Clone, Debug)]
pub struct WorkerRequestContext {
    pub worker_id: String,
    pub bucket: String,
    pub key: String,
    pub operation_id: Option<String>,
    pub upload_id: Option<String>,
    pub stream_id: Option<String>,
    pub attempt_id: Option<String>,
}

impl Default for WorkerRequestContext {
    fn default() -> (r: WorkerRequestContext)
        ensures
            r.worker_id@.len() == 0,
            r.bucket@.len() == 0,
            r.key@.len() == 0,
            r.operation_id is None,
            r.upload_id is None,
            r.stream_id is None,
            r.attempt_id is None,
    {
        WorkerRequestContext {
            worker_id: String::new(),
            bucket: String::new(),
            key: String::new(),
            operation_id: None,
            upload_id: None,
            stream_id: None,
            attempt_id: None,
        }
    }
}

// ---------------------------------------------------------------------------
// Metadata

/// Whether a byte may stand in a metadata value: it is a tab, or no control character.
pub open spec fn is_value_byte(b: u8) -> bool {
    b == 9 || b >= 32 && b != 127
}

/// Whether a text may be a metadata value.
pub open spec fn is_metadata_value(value: Seq<char>) -> bool {
    forall|i: int|
        0 <= i < encode_utf8(value).len() ==> is_value_byte(#[trigger] encode_utf8(value)[i])
}

/// Calls `tonic::metadata::MetadataValue::<Ascii>::try_from`: the bytes of a text, unless one of
/// them may not stand in a value.
#[verifier::external_body]
fn metadata_value(value: &str) -> (r: Option<Vec<u8>>)
    ensures
        match r {
            Some(bytes) => is_metadata_value(value@) && bytes@ == encode_utf8(value@),
            None => !is_metadata_value(value@),
        },
{
    let parsed = tonic::metadata::MetadataValue::<tonic::metadata::Ascii>::try_from(value).ok();
    parsed.map(|value| value.as_encoded_bytes().to_vec())
}

/// Metadata with a text as the one value under a name, where the text may be one.
pub open spec fn with_value(
    entries: Seq<(Seq<char>, Seq<u8>)>,
    name: Seq<char>,
    value: Seq<char>,
) -> Seq<(Seq<char>, Seq<u8>)> {
    if is_metadata_value(value) {
        without_name(entries, name).push((name, encode_utf8(value)))
    } else {
        entries
    }
}

/// Metadata with a text that is not empty as the one value under a name.
pub open spec fn with_optional_value(
    entries: Seq<(Seq<char>, Seq<u8>)>,
    name: Seq<char>,
    value: Option<Seq<char>>,
) -> Seq<(Seq<char>, Seq<u8>)> {
    match value {
        Some(value) => if value.len() > 0 {
            with_value(entries, name, value)
        } else {
            entries
        },
        None => entries,
    }
}

fn insert_status_metadata(metadata: Metadata, name: &str, value: &str) -> (r: Metadata)
    ensures
        r@ == with_value(metadata@, name@, value@),
{
    match metadata_value(value) {
        Some(bytes) => metadata.with(name, bytes),
        None => metadata,
    }
}

fn insert_optional_status_metadata(metadata: Metadata, name: &str, value: &Option<String>) -> (r:
    Metadata)
    ensures
        r@ == with_optional_value(metadata@, name@, opt_text(*value)),
{
    match value {
        Some(value) => if value.as_str().is_empty() {
            metadata
        } else {
            insert_status_metadata(metadata, name, value.as_str())
        },
        None => metadata,
    }
}

/// A message with an identifier that is not empty behind it.
pub open spec fn with_id(
    message: Seq<char>,
    name: Seq<char>,
    value: Option<Seq<char>>,
) -> Seq<char> {
    match value {
        Some(value) => if value.len() > 0 {
            message + " "@ + name + "="@ + value
        } else {
            message
        },
        None => message,
    }
}

fn append_status_id(message: &mut String, name: &str, value: &Option<String>)
    ensures
        final(message)@ == with_id(old(message)@, name@, opt_text(*value)),
{
    if let Some(value) = value {
        if !value.as_str().is_empty() {
            message.append(" ");
            message.append(name);
            message.append("=");
            message.append(value.as_str());
        }
    }
}

// ---------------------------------------------------------------------------
// Failures

/// The identifiers of a request in the metadata of its failure.
pub open spec fn correlated_metadata(
    entries: Seq<(Seq<char>, Seq<u8>)>,
    context: WorkerRequestContext,
    error_id: Seq<char>,
) -> Seq<(Seq<char>, Seq<u8>)> {
    let entries = with_value(entries, ERROR_ID_METADATA@, error_id);
    let entries = with_optional_value(
        entries,
        OPERATION_ID_METADATA@,
        opt_text(context.operation_id),
    );
    let entries = with_optional_value(entries, UPLOAD_ID_METADATA@, opt_text(context.upload_id));
    let entries = with_optional_value(entries, STREAM_ID_METADATA@, opt_text(context.stream_id));
    with_optional_value(entries, ATTEMPT_ID_METADATA@, opt_text(context.attempt_id))
}

/// The identifiers of a request in front of the message of its failure.
pub open spec fn correlated_message(
    message: Seq<char>,
    context: WorkerRequestContext,
    error_id: Seq<char>,
) -> Seq<char> {
    with_id(
        with_id(
            with_id(
                with_id(
                    "errorId="@ + error_id,
                    "operationId"@,
                    opt_text(context.operation_id),
                ),
                "uploadId"@,
                opt_text(context.upload_id),
            ),
            "streamId"@,
            opt_text(context.stream_id),
        ),
        "attemptId"@,
        opt_text(context.attempt_id),
    ) + ": "@ + message
}

/// A failure with the identifiers of its request. One that has an error identifier is left as it
/// is.
pub open spec fn enriched_of(
    status: StatusView,
    context: WorkerRequestContext,
    error_id: Seq<char>,
) -> StatusView {
    if first_value(status.metadata, ERROR_ID_METADATA@) is Some {
        status
    } else {
        StatusView {
            code: status.code,
            message: correlated_message(status.message, context, error_id),
            details: status.details,
            metadata: correlated_metadata(status.metadata, context, error_id),
        }
    }
}

/// A failure with the identifiers of its request.
pub fn enrich_with_id(status: Status, context: &WorkerRequestContext, error_id: &str) -> (r: Status)
    ensures
        r@ == enriched_of(status@, *context, error_id@),
{
    if status.metadata.get(ERROR_ID_METADATA).is_some() {
        return status;
    }
    let metadata = insert_status_metadata(status.metadata, ERROR_ID_METADATA, error_id);
    let metadata = insert_optional_status_metadata(
        metadata,
        OPERATION_ID_METADATA,
        &context.operation_id,
    );
    let metadata = insert_optional_status_metadata(
        metadata,
        UPLOAD_ID_METADATA,
        &context.upload_id,
    );
    let metadata = insert_optional_status_metadata(
        metadata,
        STREAM_ID_METADATA,
        &context.stream_id,
    );
    let metadata = insert_optional_status_metadata(
        metadata,
        ATTEMPT_ID_METADATA,
        &context.attempt_id,
    );
    let mut message = "errorId=".to_owned();
    message.append(error_id);
    append_status_id(&mut message, "operationId", &context.operation_id);
    append_status_id(&mut message, "uploadId", &context.upload_id);
    append_status_id(&mut message, "streamId", &context.stream_id);
    append_status_id(&mut message, "attemptId", &context.attempt_id);
    message.append(": ");
    message.append(status.message.as_str());
    Status { code: status.code, message, details: status.details, metadata }
}

/// The identifier of a failure that a UUID gives.
pub open spec fn error_id_of(uuid: Seq<char>) -> Seq<char> {
    "worker-err-"@ + replace_of(uuid, '-', ""@)
}

/// A failure with the identifiers of its request, among them a random one of its own.
pub fn enrich_worker_status(status: Status, context: &WorkerRequestContext) -> (r: Status)
    ensures
        exists|uuid: Seq<char>|
            #[trigger] is_uuid_text(uuid) && r@ == enriched_of(
                status@,
                *context,
                error_id_of(uuid),
            ),
{
    let uuid = new_uuid();
    let digits = replace(uuid.as_str(), '-', "");
    let mut error_id = "worker-err-".to_owned();
    error_id.append(digits.as_str());
    proof {
        assert(is_uuid_text(uuid@));
        assert(error_id@ == error_id_of(uuid@));
    }
    enrich_with_id(status, context, error_id.as_str())
}

/// Whether a byte is a visible ASCII character, a space or a tab.
pub open spec fn is_visible_byte(b: u8) -> bool {
    b == 9 || 32 <= b < 127
}

/// The text of bytes that are all visible.
pub open spec fn visible_text(bytes: Seq<u8>) -> Option<Seq<char>> {
    if forall|i: int| 0 <= i < bytes.len() ==> is_visible_byte(#[trigger] bytes[i]) {
        Some(Seq::new(bytes.len(), |i: int| bytes[i] as char))
    } else {
        None
    }
}

/// The metadata text under a name, in any letter case; empty where there is none, where it is no
/// visible text, and under the name of a binary value.
pub open spec fn metadata_text_of(
    entries: Seq<(Seq<char>, Seq<u8>)>,
    name: Seq<char>,
) -> Seq<char> {
    if has_suffix(name, "-bin"@) {
        Seq::empty()
    } else {
        match first_value(entries, ascii_lower_of(name)) {
            Some(bytes) => match visible_text(bytes) {
                Some(text) => text,
                None => Seq::empty(),
            },
            None => Seq::empty(),
        }
    }
}

/// The metadata text under a name; empty where there is none.
pub fn status_metadata(status: &Status, name: &str) -> (r: String)
    ensures
        r@ == metadata_text_of(status.metadata@, name@),
{
    let none = String::new();
    proof {
        assert(none@ == Seq::<char>::empty());
    }
    if ends_with(name, "-bin") {
        return none;
    }
    let lower = ascii_lower(name);
    let bytes = match status.metadata.get(lower.as_str()) {
        Some(bytes) => bytes,
        None => return none,
    };
    let mut text = String::new();
    let mut i: usize = 0;
    while i < bytes.len()
        invariant
            i <= bytes@.len(),
            !has_suffix(name@, "-bin"@),
            lower@ == ascii_lower_of(name@),
            first_value(status.metadata@, lower@) == Some(bytes@),
            none@ == Seq::<char>::empty(),
            forall|j: int| 0 <= j < i ==> is_visible_byte(#[trigger] bytes@[j]),
            text@ == Seq::new(i as nat, |j: int| bytes@[j] as char),
        decreases bytes@.len() - i,
    {
        let b: u8 = bytes[i];
        if !(b == 9 || (b >= 32 && b < 127)) {
            proof {
                assert(!is_visible_byte(bytes@[i as int]));
            }
            return none;
        }
        text.push(b as char);
        i += 1;
        proof {
            assert(text@ == Seq::new(i as nat, |j: int| bytes@[j] as char));
        }
    }
    text
}

/// Whether a code stands for a failure of the worker rather than of the request.
pub open spec fn is_internal(code: Code) -> bool {
    code == Code::Unknown || code == Code::Internal || code == Code::Unavailable || code
        == Code::DataLoss
}

/// Who a failure is put down to: the worker or the request.
pub open spec fn error_class_of(code: Code) -> Seq<char> {
    if is_internal(code) {
        "internal"@
    } else {
        "request"@
    }
}

/// Who a failure is put down to: the worker or the request.
pub fn worker_error_class(status: &Status) -> (r: &'static str)
    ensures
        r@ == error_class_of(status.code),
{
    match status.code {
        Code::Unknown => "internal",
        Code::Internal => "internal",
        Code::Unavailable => "internal",
        Code::DataLoss => "internal",
        _ => "request",
    }
}

// ---------------------------------------------------------------------------
// Laws

proof fn lemma_first_of_filtered(
    entries: Seq<(Seq<char>, Seq<u8>)>,
    removed: Seq<char>,
    name: Seq<char>,
)
    ensures
        removed != name ==> first_value(without_name(entries, removed), name) == first_value(
            entries,
            name,
        ),
        removed == name ==> first_value(without_name(entries, removed), name) is None,
    decreases entries.len(),
{
    let other = other_than(removed);
    if entries.len() == 0 {
        reveal_with_fuel(Seq::filter, 1);
        assert(without_name(entries, removed) == Seq::<(Seq<char>, Seq<u8>)>::empty());
    } else {
        let head = seq![entries[0]];
        let rest = entries.drop_first();
        lemma_first_of_filtered(rest, removed, name);
        assert(head + rest == entries);
        Seq::filter_distributes_over_add(head, rest, other);
        assert(head.filter(other) == (if entries[0].0 != removed {
            head
        } else {
            Seq::<(Seq<char>, Seq<u8>)>::empty()
        })) by {
            reveal_with_fuel(Seq::filter, 2);
            assert(head.drop_last() == Seq::<(Seq<char>, Seq<u8>)>::empty());
        }
        let kept = without_name(rest, removed);
        if entries[0].0 != removed {
            assert(without_name(entries, removed) == head + kept);
            assert((head + kept)[0] == entries[0]);
            assert((head + kept).drop_first() == kept);
        } else {
            assert(Seq::<(Seq<char>, Seq<u8>)>::empty() + kept == kept);
        }
    }
}

proof fn lemma_first_of_pushed(
    entries: Seq<(Seq<char>, Seq<u8>)>,
    entry: (Seq<char>, Seq<u8>),
    name: Seq<char>,
)
    ensures
        first_value(entries.push(entry), name) == (if first_value(entries, name) is Some {
            first_value(entries, name)
        } else if entry.0 == name {
            Some(entry.1)
        } else {
            None
        }),
    decreases entries.len(),
{
    let pushed = entries.push(entry);
    if entries.len() == 0 {
        reveal_with_fuel(first_value, 2);
        assert(pushed[0] == entry);
        assert(pushed.drop_first() == Seq::<(Seq<char>, Seq<u8>)>::empty());
    } else {
        lemma_first_of_pushed(entries.drop_first(), entry, name);
        assert(pushed[0] == entries[0]);
        assert(pushed.drop_first() == entries.drop_first().push(entry));
    }
}

proof fn lemma_first_with_value(
    entries: Seq<(Seq<char>, Seq<u8>)>,
    inserted: Seq<char>,
    value: Seq<char>,
    name: Seq<char>,
)
    ensures
        first_value(with_value(entries, inserted, value), name) == (if inserted == name
            && is_metadata_value(value) {
            Some(encode_utf8(value))
        } else {
            first_value(entries, name)
        }),
{
    lemma_first_of_filtered(entries, inserted, name);
    lemma_first_of_pushed(
        without_name(entries, inserted),
        (inserted, encode_utf8(value)),
        name,
    );
}

proof fn lemma_replaced_from(s: Seq<char>, from: char, c: char)
    requires
        replace_of(s, from, ""@).contains(c),
    ensures
        s.contains(c),
    decreases s.len(),
{
    reveal_strlit("");
    let whole = replace_of(s, from, ""@);
    let i = choose|i: int| 0 <= i < whole.len() && whole[i] == c;
    assert(s.len() > 0);
    let front = replace_of(s.drop_last(), from, ""@);
    if i < front.len() {
        assert(front[i] == c);
        assert(front.contains(c));
        lemma_replaced_from(s.drop_last(), from, c);
        let k = choose|k: int| 0 <= k < s.drop_last().len() && s.drop_last()[k] == c;
        assert(s[k] == c);
    } else {
        assert(s[s.len() - 1] == c);
    }
}

/// The identifier of a failure may be a metadata value, so it is always returned to the client.
pub proof fn law_error_id_is_metadata(uuid: Seq<char>)
    requires
        is_uuid_text(uuid),
    ensures
        is_metadata_value(error_id_of(uuid)),
{
    reveal_strlit("worker-err-");
    let prefix = "worker-err-"@;
    let digits = replace_of(uuid, '-', ""@);
    let id = error_id_of(uuid);
    assert forall|i: int| 0 <= i < id.len() implies ' ' <= #[trigger] id[i] < '\u{7f}' by {
        if i < prefix.len() {
            assert(id[i] == prefix[i]);
        } else {
            assert(id[i] == digits[i - prefix.len()]);
            assert(digits.contains(id[i]));
            lemma_replaced_from(uuid, '-', id[i]);
            let k = choose|k: int| 0 <= k < uuid.len() && uuid[k] == id[i];
            assert(uuid[k] == '-' || '0' <= uuid[k] <= '9' || 'a' <= uuid[k] <= 'f');
        }
    }
    assert(is_ascii_chars(id));
    vstd::utf8::is_ascii_chars_encode_utf8(id);
    assert forall|i: int| 0 <= i < encode_utf8(id).len() implies is_value_byte(
        #[trigger] encode_utf8(id)[i],
    ) by {
        assert(encode_utf8(id)[i] == id[i] as u8);
        assert(' ' <= id[i] < '\u{7f}');
    }
}

/// An enriched failure carries its identifier, under every name that the client can use for it, and
/// enriching it again changes nothing: no failure is wrapped twice.
pub proof fn law_enriched_once(
    status: StatusView,
    context: WorkerRequestContext,
    uuid: Seq<char>,
    other: WorkerRequestContext,
    other_uuid: Seq<char>,
)
    requires
        is_uuid_text(uuid),
    ensures
        ({
            let first = enriched_of(status, context, error_id_of(uuid));
            &&& first_value(first.metadata, ERROR_ID_METADATA@) is Some
            &&& first_value(status.metadata, ERROR_ID_METADATA@) is None ==> first_value(
                first.metadata,
                ERROR_ID_METADATA@,
            ) == Some(encode_utf8(error_id_of(uuid)))
            &&& enriched_of(first, other, error_id_of(other_uuid)) == first
            &&& first.code == status.code
            &&& first.details == status.details
        }),
{
    law_error_id_is_metadata(uuid);
    reveal_strlit("x-error-id");
    reveal_strlit("x-operation-id");
    reveal_strlit("x-upload-id");
    reveal_strlit("x-stream-id");
    reveal_strlit("x-attempt-id");
    let name = ERROR_ID_METADATA@;
    assert(name.len() == 10);
    assert(OPERATION_ID_METADATA@.len() == 14);
    assert(UPLOAD_ID_METADATA@.len() == 11);
    assert(STREAM_ID_METADATA@.len() == 11);
    assert(ATTEMPT_ID_METADATA@.len() == 12);
    if first_value(status.metadata, name) is None {
        let a = with_value(status.metadata, name, error_id_of(uuid));
        lemma_first_with_value(status.metadata, name, error_id_of(uuid), name);
        let b = with_optional_value(a, OPERATION_ID_METADATA@, opt_text(context.operation_id));
        if let Some(value) = opt_text(context.operation_id) {
            lemma_first_with_value(a, OPERATION_ID_METADATA@, value, name);
        }
        let c = with_optional_value(b, UPLOAD_ID_METADATA@, opt_text(context.upload_id));
        if let Some(value) = opt_text(context.upload_id) {
            lemma_first_with_value(b, UPLOAD_ID_METADATA@, value, name);
        }
        let d = with_optional_value(c, STREAM_ID_METADATA@, opt_text(context.stream_id));
        if let Some(value) = opt_text(context.stream_id) {
            lemma_first_with_value(c, STREAM_ID_METADATA@, value, name);
        }
        if let Some(value) = opt_text(context.attempt_id) {
            lemma_first_with_value(d, ATTEMPT_ID_METADATA@, value, name);
        }
    }
}

// ---------------------------------------------------------------------------
// Log lines

/// Where a log line comes from.
#[derive(Clone, Debug)]
pub struct LogIdentity {
    pub env: String,
    pub group: String,
    pub system: String,
    pub namespace: String,
}

/// The first of some variables that is set, without surrounding white space, or `default` where
/// that leaves nothing.
pub open spec fn first_set(
    vars: Seq<(Seq<char>, Seq<char>)>,
    keys: Seq<Seq<char>>,
    default: Seq<char>,
) -> Seq<char>
    decreases keys.len(),
{
    if keys.len() == 0 {
        default
    } else {
        match var_of(vars, keys[0]) {
            Some(value) => if trim_of(value).len() > 0 {
                trim_of(value)
            } else {
                default
            },
            None => first_set(vars, keys.drop_first(), default),
        }
    }
}

/// The keys as texts.
pub open spec fn key_texts(keys: Seq<&str>) -> Seq<Seq<char>> {
    keys.map_values(|key: &str| key@)
}

fn env_value(env: &Environment, keys: &Vec<&str>, default: &str) -> (r: String)
    ensures
        r@ == first_set(env@, key_texts(keys@), default@),
{
    let ghost all = key_texts(keys@);
    let mut i: usize = 0;
    proof {
        assert(all.skip(0) == all);
    }
    while i < keys.len()
        invariant
            i <= keys@.len(),
            all == key_texts(keys@),
            first_set(env@, all, default@) == first_set(env@, all.skip(i as int), default@),
        decreases keys@.len() - i,
    {
        proof {
            assert(all.skip(i as int)[0] == keys@[i as int]@);
            assert(all.skip(i as int).drop_first() == all.skip(i + 1));
        }
        if let Some(value) = env.var(keys[i]) {
            let trimmed = trim(value);
            if trimmed.as_str().is_empty() {
                return default.to_owned();
            }
            return trimmed;
        }
        i += 1;
    }
    proof {
        assert(all.skip(i as int) == Seq::<Seq<char>>::empty());
    }
    default.to_owned()
}

impl LogIdentity {
    /// Whether this is the identity that the environment gives.
    pub open spec fn is_identity(
        self,
        vars: Seq<(Seq<char>, Seq<char>)>,
        default_system: Seq<char>,
    ) -> bool {
        &&& self.env@ == first_set(vars, seq!["LOG_ENV"@, "APP_ENV"@, "ENV"@], "local"@)
        &&& self.group@ == first_set(vars, seq!["LOG_GROUP"@, "GROUP"@], "arrow-flight"@)
        &&& self.system@ == first_set(vars, seq!["LOG_SYSTEM"@, "SYSTEM"@], default_system)
        &&& self.namespace@ == first_set(
            vars,
            seq!["LOG_NAMESPACE"@, "POD_NAMESPACE"@, "NAMESPACE"@],
            "local"@,
        )
    }

    /// The identity from the environment.
    pub fn from_env(env: &Environment, default_system: &str) -> (r: LogIdentity)
        ensures
            r.is_identity(env@, default_system@),
    {
        let env_keys = vec!["LOG_ENV", "APP_ENV", "ENV"];
        let group_keys = vec!["LOG_GROUP", "GROUP"];
        let system_keys = vec!["LOG_SYSTEM", "SYSTEM"];
        let namespace_keys = vec!["LOG_NAMESPACE", "POD_NAMESPACE", "NAMESPACE"];
        proof {
            assert(key_texts(env_keys@) == seq!["LOG_ENV"@, "APP_ENV"@, "ENV"@]);
            assert(key_texts(group_keys@) == seq!["LOG_GROUP"@, "GROUP"@]);
            assert(key_texts(system_keys@) == seq!["LOG_SYSTEM"@, "SYSTEM"@]);
            assert(key_texts(namespace_keys@) == seq![
                "LOG_NAMESPACE"@,
                "POD_NAMESPACE"@,
                "NAMESPACE"@,
            ]);
        }
        LogIdentity {
            env: env_value(env, &env_keys, "local"),
            group: env_value(env, &group_keys, "arrow-flight"),
            system: env_value(env, &system_keys, default_system),
            namespace: env_value(env, &namespace_keys, "local"),
        }
    }

    /// The members of a log line with those of the identity set.
    pub open spec fn inserted(self, members: Map<Seq<char>, JsonMember>) -> Map<
        Seq<char>,
        JsonMember,
    > {
        members.insert("env"@, JsonMember::Text(self.env@)).insert(
            "group"@,
            JsonMember::Text(self.group@),
        ).insert("system"@, JsonMember::Text(self.system@)).insert(
            "namespace"@,
            JsonMember::Text(self.namespace@),
        )
    }

    /// Sets the members of the identity in a log line.
    pub fn insert(&self, fields: &mut serde_json::Map<String, serde_json::Value>)
        ensures
            json_members(*final(fields)) == self.inserted(json_members(*old(fields))),
    {
        object_insert_text(fields, "env", self.env.as_str());
        object_insert_text(fields, "group", self.group.as_str());
        object_insert_text(fields, "system", self.system.as_str());
        object_insert_text(fields, "namespace", self.namespace.as_str());
    }

    /// Whether an object holds the fixed members of a log line, and no other member.
    pub open spec fn is_line(
        self,
        timestamp: Seq<char>,
        level: Seq<char>,
        target: Seq<char>,
        members: Map<Seq<char>, JsonMember>,
    ) -> bool {
        exists|empty: Map<Seq<char>, JsonMember>|
            (#[trigger] empty.dom()) == Set::<Seq<char>>::empty() && members == self.inserted(
                empty,
            ).insert("timestamp"@, JsonMember::Text(timestamp)).insert(
                "level"@,
                JsonMember::Text(level),
            ).insert("target"@, JsonMember::Text(target))
    }

    /// The fixed members of a log line at a time.
    pub fn line_at(&self, timestamp: &str, level: &str, target: &str) -> (r: serde_json::Map<
        String,
        serde_json::Value,
    >)
        ensures
            self.is_line(timestamp@, level@, target@, json_members(r)),
    {
        let mut fields = object_new();
        let ghost empty = json_members(fields);
        proof {
            assert(empty.dom() == Set::<Seq<char>>::empty());
        }
        self.insert(&mut fields);
        object_insert_text(&mut fields, "timestamp", timestamp);
        object_insert_text(&mut fields, "level", level);
        object_insert_text(&mut fields, "target", target);
        fields
    }

    /// The fixed members of a log line now.
    pub fn line(&self, level: &str, target: &str) -> (r: serde_json::Map<String, serde_json::Value>)
        ensures
            exists|time: std::time::SystemTime|
                self.is_line(
                    decimal_of(#[trigger] timestamp_of(time) as nat),
                    level@,
                    target@,
                    json_members(r),
                ),
    {
        let timestamp = unix_timestamp_millis();
        self.line_at(timestamp.as_str(), level, target)
    }
}

/// The milliseconds since the Unix epoch now, as text.
pub fn unix_timestamp_millis() -> (r: String)
    ensures
        exists|time: std::time::SystemTime| r@ == decimal_of(#[trigger] timestamp_of(time) as nat),
{
    decimal(timestamp_ms())
}

// ---------------------------------------------------------------------------
// Laws of failures and log lines

/// Whether the text under a name in metadata is an identifier, where there is one that is not empty
/// and may be a value.
pub open spec fn carries(
    entries: Seq<(Seq<char>, Seq<u8>)>,
    name: Seq<char>,
    id: Option<String>,
) -> bool {
    id matches Some(id) ==> id@.len() > 0 && is_metadata_value(id@) ==> first_value(entries, name)
        == Some(encode_utf8(id@))
}

/// A failure carries the identifiers of its request, each under its own name, and its own.
pub proof fn law_failure_carries_the_ids(
    status: StatusView,
    context: WorkerRequestContext,
    uuid: Seq<char>,
)
    requires
        is_uuid_text(uuid),
        first_value(status.metadata, "x-error-id"@) is None,
    ensures
        ({
            let entries = enriched_of(status, context, error_id_of(uuid)).metadata;
            &&& first_value(entries, "x-error-id"@) == Some(
                encode_utf8("worker-err-"@ + replace_of(uuid, '-', ""@)),
            )
            &&& carries(entries, "x-operation-id"@, context.operation_id)
            &&& carries(entries, "x-upload-id"@, context.upload_id)
            &&& carries(entries, "x-stream-id"@, context.stream_id)
            &&& carries(entries, "x-attempt-id"@, context.attempt_id)
        }),
{
    law_enriched_once(status, context, uuid, context, uuid);
    reveal_strlit("x-error-id");
    reveal_strlit("x-operation-id");
    reveal_strlit("x-upload-id");
    reveal_strlit("x-stream-id");
    reveal_strlit("x-attempt-id");
    let operation = "x-operation-id"@;
    let upload = "x-upload-id"@;
    let stream = "x-stream-id"@;
    let attempt = "x-attempt-id"@;
    assert(operation.len() == 14 && attempt.len() == 12);
    assert(upload.len() == 11 && stream.len() == 11 && upload[2] == 'u' && stream[2] == 's');
    let a = with_value(status.metadata, ERROR_ID_METADATA@, error_id_of(uuid));
    let b = with_optional_value(a, operation, opt_text(context.operation_id));
    let c = with_optional_value(b, upload, opt_text(context.upload_id));
    let d = with_optional_value(c, stream, opt_text(context.stream_id));
    lemma_first_with_optional(a, operation, opt_text(context.operation_id), operation);
    lemma_first_with_optional(b, upload, opt_text(context.upload_id), operation);
    lemma_first_with_optional(b, upload, opt_text(context.upload_id), upload);
    lemma_first_with_optional(c, stream, opt_text(context.stream_id), operation);
    lemma_first_with_optional(c, stream, opt_text(context.stream_id), upload);
    lemma_first_with_optional(c, stream, opt_text(context.stream_id), stream);
    lemma_first_with_optional(d, attempt, opt_text(context.attempt_id), operation);
    lemma_first_with_optional(d, attempt, opt_text(context.attempt_id), upload);
    lemma_first_with_optional(d, attempt, opt_text(context.attempt_id), stream);
    lemma_first_with_optional(d, attempt, opt_text(context.attempt_id), attempt);
}

proof fn lemma_first_with_optional(
    entries: Seq<(Seq<char>, Seq<u8>)>,
    inserted: Seq<char>,
    value: Option<Seq<char>>,
    name: Seq<char>,
)
    ensures
        first_value(with_optional_value(entries, inserted, value), name) == (if inserted == name
            && value is Some && value->0.len() > 0 && is_metadata_value(value->0) {
            Some(encode_utf8(value->0))
        } else {
            first_value(entries, name)
        }),
{
    if let Some(text) = value {
        lemma_first_with_value(entries, inserted, text, name);
    }
}

/// The message of a failure names its identifier and those of its request that are there, in one
/// order, and ends with what failed.
pub proof fn law_failure_names_the_ids(
    status: StatusView,
    context: WorkerRequestContext,
    error_id: Seq<char>,
)
    requires
        first_value(status.metadata, "x-error-id"@) is None,
    ensures
        ({
            let message = enriched_of(status, context, error_id).message;
            let named = |words: Seq<char>, id: Option<String>|
                match id {
                    Some(id) => if id@.len() == 0 {
                        Seq::<char>::empty()
                    } else {
                        words + id@
                    },
                    None => Seq::<char>::empty(),
                };
            message == "errorId="@ + error_id + named(" operationId="@, context.operation_id)
                + named(" uploadId="@, context.upload_id) + named(
                " streamId="@,
                context.stream_id,
            ) + named(" attemptId="@, context.attempt_id) + ": "@ + status.message
        }),
{
    reveal_strlit(" ");
    reveal_strlit("=");
    reveal_strlit("operationId");
    reveal_strlit("uploadId");
    reveal_strlit("streamId");
    reveal_strlit("attemptId");
    reveal_strlit(" operationId=");
    reveal_strlit(" uploadId=");
    reveal_strlit(" streamId=");
    reveal_strlit(" attemptId=");
    assert(" operationId="@ == " "@ + "operationId"@ + "="@);
    assert(" uploadId="@ == " "@ + "uploadId"@ + "="@);
    assert(" streamId="@ == " "@ + "streamId"@ + "="@);
    assert(" attemptId="@ == " "@ + "attemptId"@ + "="@);
    let first = "errorId="@ + error_id;
    let a = with_id(first, "operationId"@, opt_text(context.operation_id));
    let b = with_id(a, "uploadId"@, opt_text(context.upload_id));
    let c = with_id(b, "streamId"@, opt_text(context.stream_id));
    let d = with_id(c, "attemptId"@, opt_text(context.attempt_id));
    lemma_with_id(first, "operationId"@, " operationId="@, context.operation_id);
    lemma_with_id(a, "uploadId"@, " uploadId="@, context.upload_id);
    lemma_with_id(b, "streamId"@, " streamId="@, context.stream_id);
    lemma_with_id(c, "attemptId"@, " attemptId="@, context.attempt_id);
}

proof fn lemma_with_id(
    message: Seq<char>,
    name: Seq<char>,
    words: Seq<char>,
    id: Option<String>,
)
    requires
        words == " "@ + name + "="@,
    ensures
        with_id(message, name, opt_text(id)) == message + (match id {
            Some(id) => if id@.len() == 0 {
                Seq::<char>::empty()
            } else {
                words + id@
            },
            None => Seq::<char>::empty(),
        }),
{
    assert(message + Seq::<char>::empty() == message);
    if let Some(id) = id {
        assert(message + " "@ + name + "="@ + id@ == message + (" "@ + name + "="@ + id@));
    }
}

/// A failure is put down to the worker exactly where its code is unknown, internal, unavailable or
/// data loss, and otherwise to the request.
pub proof fn law_error_classes(code: Code)
    ensures
        code == Code::Unknown || code == Code::Internal || code == Code::Unavailable || code
            == Code::DataLoss ==> error_class_of(code) == "internal"@,
        code != Code::Unknown && code != Code::Internal && code != Code::Unavailable && code
            != Code::DataLoss ==> error_class_of(code) == "request"@,
{
}

/// A log line comes from where its own variables say: the first of them that is set counts, without
/// the white space around it, and a default where that leaves nothing or none is set.
pub proof fn law_log_identity(
    identity: LogIdentity,
    vars: Seq<(Seq<char>, Seq<char>)>,
    default_system: Seq<char>,
)
    requires
        identity.is_identity(vars, default_system),
    ensures
        var_of(vars, "LOG_ENV"@) matches Some(value) ==> identity.env@ == (if trim_of(value).len()
            > 0 {
            trim_of(value)
        } else {
            "local"@
        }),
        var_of(vars, "LOG_ENV"@) is None && var_of(vars, "APP_ENV"@) is None && var_of(
            vars,
            "ENV"@,
        ) is None ==> identity.env@ == "local"@,
        var_of(vars, "LOG_GROUP"@) matches Some(value) ==> identity.group@ == (if trim_of(
            value,
        ).len() > 0 {
            trim_of(value)
        } else {
            "arrow-flight"@
        }),
        var_of(vars, "LOG_GROUP"@) is None && var_of(vars, "GROUP"@) is None ==> identity.group@
            == "arrow-flight"@,
        var_of(vars, "LOG_SYSTEM"@) matches Some(value) ==> identity.system@ == (if trim_of(
            value,
        ).len() > 0 {
            trim_of(value)
        } else {
            default_system
        }),
        var_of(vars, "LOG_SYSTEM"@) is None && var_of(vars, "SYSTEM"@) is None ==> identity.system@
            == default_system,
        var_of(vars, "LOG_NAMESPACE"@) matches Some(value) ==> identity.namespace@ == (if trim_of(
            value,
        ).len() > 0 {
            trim_of(value)
        } else {
            "local"@
        }),
        var_of(vars, "LOG_NAMESPACE"@) is None && var_of(vars, "POD_NAMESPACE"@) is None && var_of(
            vars,
            "NAMESPACE"@,
        ) is None ==> identity.namespace@ == "local"@,
{
    reveal_with_fuel(first_set, 4);
    let env = seq!["LOG_ENV"@, "APP_ENV"@, "ENV"@];
    let group = seq!["LOG_GROUP"@, "GROUP"@];
    let system = seq!["LOG_SYSTEM"@, "SYSTEM"@];
    let namespace = seq!["LOG_NAMESPACE"@, "POD_NAMESPACE"@, "NAMESPACE"@];
    assert(env.drop_first()[0] == "APP_ENV"@ && env.drop_first().drop_first()[0] == "ENV"@);
    assert(group.drop_first()[0] == "GROUP"@);
    assert(system.drop_first()[0] == "SYSTEM"@);
    assert(namespace.drop_first()[0] == "POD_NAMESPACE"@);
    assert(namespace.drop_first().drop_first()[0] == "NAMESPACE"@);
}

/// A log line says when it was written, how grave it is, what it is about, and where it comes from,
/// each under its own name, and nothing else.
pub proof fn law_log_line_says(
    identity: LogIdentity,
    timestamp: Seq<char>,
    level: Seq<char>,
    target: Seq<char>,
    members: Map<Seq<char>, JsonMember>,
)
    requires
        identity.is_line(timestamp, level, target, members),
    ensures
        members.contains_key("env"@) && members["env"@] == JsonMember::Text(identity.env@),
        members.contains_key("group"@) && members["group"@] == JsonMember::Text(identity.group@),
        members.contains_key("system"@) && members["system"@] == JsonMember::Text(
            identity.system@,
        ),
        members.contains_key("namespace"@) && members["namespace"@] == JsonMember::Text(
            identity.namespace@,
        ),
        members.contains_key("timestamp"@) && members["timestamp"@] == JsonMember::Text(timestamp),
        members.contains_key("level"@) && members["level"@] == JsonMember::Text(level),
        members.contains_key("target"@) && members["target"@] == JsonMember::Text(target),
        forall|name: Seq<char>| #[trigger]
            members.contains_key(name) ==> name == "env"@ || name == "group"@ || name == "system"@
                || name == "namespace"@ || name == "timestamp"@ || name == "level"@ || name
                == "target"@,
{
    reveal_strlit("env");
    reveal_strlit("group");
    reveal_strlit("system");
    reveal_strlit("namespace");
    reveal_strlit("timestamp");
    reveal_strlit("level");
    reveal_strlit("target");
    assert("group"@.len() == 5 && "group"@[0] == 'g' && "level"@[0] == 'l');
    assert("system"@.len() == 6 && "system"@[0] == 's' && "target"@[0] == 't');
    assert("namespace"@.len() == 9 && "namespace"@[0] == 'n' && "timestamp"@[0] == 't');
    assert("env"@.len() == 3 && "level"@.len() == 5 && "target"@.len() == 6);
    assert("timestamp"@.len() == 9);
    let empty = choose|empty: Map<Seq<char>, JsonMember>|
        (#[trigger] empty.dom()) == Set::<Seq<char>>::empty() && members == identity.inserted(
            empty,
        ).insert("timestamp"@, JsonMember::Text(timestamp)).insert(
            "level"@,
            JsonMember::Text(level),
        ).insert("target"@, JsonMember::Text(target));
    assert forall|name: Seq<char>| !empty.contains_key(name) by {
        assert(!empty.dom().contains(name));
    }
}

/// The text under a name in metadata is that of its bytes, where they are all visible ASCII, and
/// empty where they are not, where there are none, and under the name of a binary value.
pub proof fn law_metadata_text(entries: Seq<(Seq<char>, Seq<u8>)>, name: Seq<char>)
    ensures
        has_suffix(name, "-bin"@) ==> metadata_text_of(entries, name).len() == 0,
        first_value(entries, ascii_lower_of(name)) is None ==> metadata_text_of(entries, name).len()
            == 0,
        first_value(entries, ascii_lower_of(name)) matches Some(bytes) ==> !has_suffix(
            name,
            "-bin"@,
        ) ==> {
            let text = metadata_text_of(entries, name);
            let visible = forall|i: int|
                0 <= i < bytes.len() ==> #[trigger] bytes[i] == 9 || 32 <= bytes[i] <= 126;
            &&& visible ==> text.len() == bytes.len() && forall|i: int|
                0 <= i < bytes.len() ==> #[trigger] text[i] == bytes[i] as char
            &&& !visible ==> text.len() == 0
        },
{
    if let Some(bytes) = first_value(entries, ascii_lower_of(name)) {
        let visible = forall|i: int|
            0 <= i < bytes.len() ==> #[trigger] bytes[i] == 9 || 32 <= bytes[i] <= 126;
        if visible {
            assert forall|i: int| 0 <= i < bytes.len() implies is_visible_byte(
                #[trigger] bytes[i],
            ) by {}
        } else {
            let i = choose|i: int|
                0 <= i < bytes.len() && !(#[trigger] bytes[i] == 9 || 32 <= bytes[i] <= 126);
            assert(!is_visible_byte(bytes[i]));
        }
    }
}

}
