use arrow_flight_worker::env::{EnvVar, Environment};
use arrow_flight_worker::generate::{
    buckets, check_payload, ids, next_batch_rows, payload, target_rows, timestamps,
    value_thousandths,
};
use arrow_flight_worker::json::object_text;
use arrow_flight_worker::profile::{part_limit, print_server_profile, ClientSourceProfile};
use arrow_flight_worker::query::{
    action_text, check_replied, drop_temp, drop_temp_text, endpoint_limit, endpoint_worker,
    judge_poll, metadata_json, metadata_line, metadata_text, metadata_text_or, parse_body,
    poll_command, poll_step, poll_verdict, polls_exhausted, query_command, query_id, reply_value,
    PollStep, PollVerdict, ReadTotals,
};
use arrow_flight_worker::upload::{
    abort_upload, check_input, check_plan, check_start, commit_summary_text, commit_table,
    commit_upload, create_schema, create_upload, env_size, insert_admin_token, insert_caller,
    max_upload_streams, operation_id, parse_optional_size, parse_reply, put_context_text,
    put_result_text, read_plan, sort_results, staging_prefix, stream_id, stream_key, text_source,
    upload_id, CommitMode, CommitUploadResponse, CreateUploadRequest, CreateUploadResponse,
    E2eClientConfig, RoundRobin, StreamResult, TextSource, UploadFlavor, UploadTicket,
};
use serde_json::Value;

fn some(text: &str) -> Option<String> {
    Some(text.to_owned())
}

fn json(map: serde_json::Map<String, Value>) -> String {
    Value::Object(map).to_string()
}

fn environment(vars: &[(&str, &str)]) -> Environment {
    Environment {
        vars: vars
            .iter()
            .map(|(name, value)| EnvVar { name: (*name).to_owned(), value: (*value).to_owned() })
            .collect(),
    }
}

#[test]
fn uploads_are_created_committed_and_aborted() {
    let request = CreateUploadRequest {
        operation_id: "op".to_owned(),
        upload_id: some(" "),
        table_name: some("t"),
        schema: None,
        commit_mode: Some(CommitMode::Append),
        trino_user: some("u"),
        trino_authorization: None,
        flavor: UploadFlavor::Medium.as_str().to_owned(),
        target_file_size: Some(5),
        max_stream_bytes: None,
        max_record_batch_bytes: Some(6),
        ttl_ms: None,
    };
    assert_eq!(
        json(create_upload(&request)),
        "{\"flavor\":\"medium\",\"maxRecordBatchBytes\":6,\"mode\":\"append\",\
         \"operationId\":\"op\",\"tableName\":\"t\",\"targetFileSizeBytes\":5,\"user\":\"u\"}"
    );
    assert_eq!(
        json(commit_upload("up", CommitMode::Overwrite, &some("t"), &None, &some("\t"))),
        "{\"mode\":\"overwrite\",\"tableName\":\"t\",\"uploadId\":\"up\"}"
    );
    assert_eq!(
        json(abort_upload("up", "no worker")),
        "{\"reason\":\"client upload failed: no worker\",\"uploadId\":\"up\"}"
    );
    assert_eq!(UploadFlavor::Small.as_str(), "small");
    assert_eq!(UploadFlavor::Large.as_str(), "large");
    assert_eq!(CommitMode::Overwrite.as_str(), "overwrite");
}

#[test]
fn callers_of_the_coordinator() {
    let mut body = serde_json::Map::new();
    insert_admin_token(&mut body, &some(""));
    assert_eq!(json(body), "{\"adminToken\":\"\"}");
    let mut body = serde_json::Map::new();
    insert_caller(&mut body, &some(" "), &some(""), &some("t"));
    assert_eq!(json(body), "{\"adminToken\":\"t\",\"user\":\" \"}");
    assert_eq!(
        json(create_schema("s", &some("l"), &None, &None, &some(""))),
        "{\"location\":\"l\",\"schemaName\":\"s\"}"
    );
}

#[test]
fn plans_of_uploads_are_checked() {
    assert!(check_plan(2, 2, 2).is_ok());
    assert_eq!(
        check_plan(1, 2, 2).unwrap_err().one_line(),
        "coordinator returned grantedStreams=1 but tickets=2"
    );
    assert_eq!(
        check_plan(2, 3, 2).unwrap_err().one_line(),
        "coordinator returned expectedStreams=3 but tickets=2"
    );
    assert!(check_start(2, 2).is_ok());
    assert_eq!(
        check_start(0, 0).unwrap_err().one_line(),
        "coordinator did not return upload tickets"
    );
    assert_eq!(
        check_start(3, 2).unwrap_err().one_line(),
        "coordinator returned 3 upload tickets but input only has 2 Arrow batches; \
         use a smaller upload flavor or generate smaller batches"
    );
}

#[test]
fn batches_go_round() {
    let mut round = RoundRobin::new(3);
    let order: Vec<usize> = (0..7).map(|_| round.assign()).collect();
    assert_eq!(order, [0, 1, 2, 0, 1, 2, 0]);
    assert_eq!(round.sent, 7);
}

#[test]
fn names_of_uploads() {
    assert_eq!(operation_id(&some("x")), "x");
    assert_eq!(operation_id(&None).len(), "coordinator-".len() + 36);
    assert!(upload_id(&None).starts_with("upload-"));
    assert_ne!(upload_id(&None), upload_id(&None));
    assert_eq!(staging_prefix(&some("//a/b/"), "u"), "a/b");
    assert_eq!(staging_prefix(&None, "u"), "staging/u");
    assert_eq!(stream_id(12), "stream-00012");
    assert_eq!(stream_key("a", "s"), "a/s.parquet");
    assert_eq!(max_upload_streams(None, 4), 4);
    assert_eq!(max_upload_streams(Some(0), 4), 1);
    assert_eq!(commit_table(&None, &some("b")), some("b"));
    assert_eq!(commit_table(&some("a"), &some("b")), some("a"));
    let ticket = UploadTicket {
        worker_id: "w".to_owned(),
        flight_uri: "f".to_owned(),
        descriptor_path: "d".to_owned(),
        attempt_id: "a".to_owned(),
        upload_id: "u".to_owned(),
        stream_id: "s".to_owned(),
        app_metadata: String::new(),
    };
    assert_eq!(
        put_context_text(&ticket),
        "uploadId=u streamId=s attemptId=a worker=w uri=f path=d"
    );
}

#[test]
fn results_are_sorted_by_stream() {
    let result = |stream_id: &str, elapsed_ms: u128| StreamResult {
        stream_id: stream_id.to_owned(),
        worker_id: String::new(),
        flight_uri: String::new(),
        key: String::new(),
        elapsed_ms,
        put_results: Vec::new(),
    };
    let sorted =
        sort_results(vec![result("b", 1), result("a", 2), result("ab", 3), result("a", 4)]);
    let order: Vec<(&str, u128)> =
        sorted.iter().map(|result| (result.stream_id.as_str(), result.elapsed_ms)).collect();
    assert_eq!(order, [("a", 2), ("a", 4), ("ab", 3), ("b", 1)]);
}

#[test]
fn sizes_of_clients() {
    assert_eq!(env_size(&environment(&[("S", "2k")]), "S", 1).unwrap(), 2048);
    assert_eq!(env_size(&environment(&[]), "S", 1).unwrap(), 1);
    assert_eq!(
        env_size(&environment(&[("S", "x")]), "S", 1).unwrap_err().messages[0],
        "invalid S"
    );
    let default = E2eClientConfig::from_env(&environment(&[])).unwrap();
    assert_eq!(default.max_message_size, 256 << 20);
    assert_eq!(parse_optional_size("--x", &some("1k")).unwrap(), Some(1024));
    assert_eq!(parse_optional_size("--x", &None).unwrap(), None);
    assert_eq!(
        parse_optional_size("--x", &some("?")).unwrap_err().messages[0],
        "failed to parse --x"
    );
}

#[test]
fn texts_come_from_one_source() {
    assert!(matches!(text_source(&some("t"), false, "c"), Ok(TextSource::Inline(t)) if t == "t"));
    assert!(matches!(text_source(&None, true, "c"), Ok(TextSource::File)));
    assert!(matches!(text_source(&None, false, "c"), Ok(TextSource::Nowhere)));
    assert_eq!(text_source(&some("t"), true, "only one").unwrap_err().one_line(), "only one");
}

#[test]
fn commands_of_queries() {
    assert_eq!(
        json(query_command("select 1", "me", &some(" "), &some("s"), &some("k"))),
        "{\"authorization\":\"k\",\"schema\":\"s\",\"sql\":\"select 1\",\"type\":\"ctas\",\"user\":\"me\"}"
    );
    assert_eq!(json(poll_command("q")), "{\"queryId\":\"q\",\"type\":\"poll\"}");
    assert_eq!(json(drop_temp("q", "me", &None)), "{\"queryId\":\"q\",\"user\":\"me\"}");
    assert_eq!(json(parse_body("{\"a\":1}").unwrap()), "{\"a\":1}");
    assert_eq!(parse_body("[1]").unwrap_err().one_line(), "--body must be a JSON object");
    let broken = parse_body("{").unwrap_err().messages;
    assert_eq!(broken[0], "--body must be a JSON object");
    assert_eq!(broken.len(), 2);
}

fn metadata(text: &str) -> Option<Value> {
    metadata_json("FlightInfo", text.as_bytes()).unwrap()
}

#[test]
fn metadata_of_queries() {
    assert!(metadata("").is_none());
    let broken = metadata_json("FlightInfo", b"{").unwrap_err().messages;
    assert_eq!(broken[0], "FlightInfo app_metadata was not JSON");
    assert_eq!(query_id(&metadata("{\"queryId\":\"q\"}")).unwrap(), "q");
    let missing = "FlightInfo metadata did not include queryId";
    assert_eq!(query_id(&metadata("")).unwrap_err().one_line(), missing);
    assert_eq!(query_id(&metadata("{\"queryId\":1}")).unwrap_err().one_line(), missing);
    assert_eq!(metadata_text(&metadata("{\"a\":\"b\"}"), "a"), some("b"));
    assert_eq!(metadata_text_or(&metadata("{}"), "path", "unknown"), "unknown");
}

#[test]
fn polls_end_in_a_verdict() {
    assert_eq!(poll_verdict("q", "RUNNING", "", true).unwrap(), PollVerdict::Again);
    assert_eq!(poll_verdict("q", "SUCCEEDED", "", false).unwrap(), PollVerdict::Done);
    assert_eq!(
        poll_verdict("q", "FAILED", "why", true).unwrap_err().one_line(),
        "query q failed: why"
    );
    assert_eq!(
        poll_verdict("q", "RUNNING", "", false).unwrap_err().one_line(),
        "query q completed with unexpected status RUNNING"
    );
    assert_eq!(
        judge_poll("q", &metadata("{\"status\":\"FAILED\"}"), false).unwrap_err().one_line(),
        "query q failed: unknown coordinator query failure"
    );
    assert_eq!(
        judge_poll("q", &metadata(""), false).unwrap_err().one_line(),
        "query q completed with unexpected status UNKNOWN"
    );
    assert_eq!(
        polls_exhausted("q", 3).one_line(),
        "query q did not complete after 3 polls"
    );
}

#[test]
fn results_are_read_and_previewed() {
    assert_eq!(endpoint_limit(None, 3), 3);
    assert_eq!(endpoint_limit(Some(5), 3), 3);
    assert_eq!(endpoint_limit(Some(1), 3), 1);
    assert_eq!(endpoint_worker(2, true, &some("u")).unwrap(), "u");
    assert_eq!(
        endpoint_worker(2, false, &some("u")).unwrap_err().one_line(),
        "endpoint 2 did not include a ticket"
    );
    assert_eq!(
        endpoint_worker(2, true, &None).unwrap_err().one_line(),
        "endpoint 2 did not include a worker location"
    );
    let mut endpoint = ReadTotals::new();
    assert_eq!(endpoint.add_batch(4, 100, 6), Some(4));
    assert_eq!(endpoint.add_batch(4, 100, 6), Some(2));
    assert_eq!(endpoint.add_batch(4, 100, 6), None);
    let mut all = ReadTotals::new();
    all.add_endpoint(endpoint);
    assert_eq!((all.rows, all.batches, all.arrow_bytes, all.preview_rows), (12, 3, 300, 6));
    assert_eq!(all.preview_left(20), 14);
    assert_eq!(all.preview_left(5), 0);
}

#[test]
fn source_profiles_are_shown_where_enabled() {
    let mut off = ClientSourceProfile::new(false);
    off.record_ipc_read(5, 10);
    assert!(!off.enabled());
    assert!(off.print().is_empty());
    let mut on = ClientSourceProfile::new(true);
    on.record_ipc_read(5, 10);
    on.record_ipc_read(6, 1);
    assert_eq!(
        on.print(),
        ["client_source.ipc_read_ms=11", "client_source.rows=11", "client_source.batches=2"]
    );
}

#[test]
fn server_profiles_are_shown_with_percentages() {
    let percent = |ms: u64, total: u64| format!("{:.1}", ms as f64 / total as f64 * 100.0);
    let result = "{\"flight_data_messages\":4,\
        \"profile\":{\"total_server_ms\":200,\"receive_decode_ms\":3,\"object_head_ms\":50},\
        \"part_profiles\":[{\"part_index\":1,\"rows\":2,\"batches\":3,\
        \"parquet_object_bytes\":4,\"profile\":{\"elapsed_ms\":5,\"write_ms\":6,\
        \"flush_ms\":7,\"close_ms\":8,\"idle_wait_ms\":9}},{},{}]}";
    assert_eq!(
        print_server_profile(result, 2, &percent),
        [
            "server_profile.total_server_ms=200",
            "server_profile.flight_data_messages=4",
            "server_profile.receive_decode_ms=3 (1.5%)",
            "server_profile.object_head_ms=50 (25.0%)",
            "server_part.1=rows=2 batches=3 parquet_bytes=4 elapsed_ms=5 write_ms=6 \
             flush_ms=7 close_ms=8 idle_wait_ms=9",
            "server_part.0=rows=0 batches=0 parquet_bytes=0 elapsed_ms=0 write_ms=0 \
             flush_ms=0 close_ms=0 idle_wait_ms=0",
            "server_part.omitted=1",
        ]
    );
    assert!(print_server_profile("no json", 2, &percent).is_empty());
    assert!(print_server_profile("{\"part_profiles\":[{}]}", 2, &percent).is_empty());
    assert_eq!(
        print_server_profile("{\"profile\":{\"enqueue_wait_ms\":3}}", 2, &percent),
        ["server_profile.enqueue_wait_ms=3"]
    );
    assert_eq!(part_limit(&environment(&[])), 16);
    assert_eq!(part_limit(&environment(&[("PROFILE_PART_LIMIT", "3")])), 3);
    assert_eq!(part_limit(&environment(&[("PROFILE_PART_LIMIT", " 3")])), 16);
}

#[test]
fn generated_rows() {
    assert!(check_payload(1).is_ok());
    assert_eq!(
        check_payload(0).unwrap_err().one_line(),
        "--payload-bytes must be greater than 0"
    );
    assert_eq!(target_rows(1000, 72), 10);
    assert_eq!(target_rows(1, 72), 1);
    assert_eq!(next_batch_rows(4, 10, 8), Some(2));
    assert_eq!(next_batch_rows(4, 10, 3), Some(4));
    assert_eq!(next_batch_rows(4, 10, 10), None);
    assert_eq!(ids(7, 3), [7, 8, 9]);
    assert_eq!(timestamps(7, 2), [7000, 8000]);
    assert_eq!(value_thousandths(9999, 2), [9999, 0]);
    assert_eq!(buckets(1023, 2), [1023, 0]);
    assert_eq!(payload(0x0102, 3), [0x02, 0x01, 0]);
    let long = payload(10, 10);
    assert_eq!(long[..8], [10, 0, 0, 0, 0, 0, 0, 0]);
    assert_eq!(long[8..], [54, 54]);
}

#[test]
fn polls_are_bounded() {
    let again = Some(PollVerdict::Again);
    assert_eq!(poll_step("q", 2, 0, None).unwrap(), PollStep::Poll(0));
    assert_eq!(poll_step("q", 2, 1, again).unwrap(), PollStep::Poll(1));
    assert_eq!(
        poll_step("q", 2, 2, again).unwrap_err().one_line(),
        "query q did not complete after 2 polls"
    );
    assert_eq!(poll_step("q", 2, 2, Some(PollVerdict::Done)).unwrap(), PollStep::Finish);
    assert_eq!(
        poll_step("q", 0, 0, None).unwrap_err().one_line(),
        "query q did not complete after 0 polls"
    );
}

#[test]
fn replies_are_read_and_shown() {
    assert_eq!(
        drop_temp_text(b" { \"dropped\" : true, \"n\": [1, 2] } ").unwrap(),
        "drop_temp_result={\"dropped\":true,\"n\":[1,2]}"
    );
    let error = drop_temp_text(b"{").unwrap_err();
    assert_eq!(error.messages.len(), 2);
    assert_eq!(error.messages[0], "invalid drop-temp JSON response");
    assert_eq!(error.messages[1], serde_json::from_str::<Value>("{").unwrap_err().to_string());
    assert_eq!(action_text(b"{\"a\":1}").unwrap(), "{\n  \"a\": 1\n}");
    let error = action_text(b"no").unwrap_err();
    assert_eq!(error.messages[0], "invalid JSON action response");
    assert_eq!(reply_value(b"[3]", "bad").unwrap(), Value::from(vec![3]));
    assert_eq!(reply_value(b"", "bad").unwrap_err().messages[0], "bad");
}

#[test]
fn actions_must_be_replied_to() {
    assert!(check_replied(1, "silence").is_ok());
    assert_eq!(check_replied(0, "silence").unwrap_err().one_line(), "silence");
    assert!(check_input(1).is_ok());
    assert_eq!(
        check_input(0).unwrap_err().one_line(),
        "input did not contain any Arrow batches"
    );
}

#[test]
fn texts_of_values() {
    let command = poll_command("q\"1");
    assert_eq!(object_text(command), "{\"queryId\":\"q\\\"1\",\"type\":\"poll\"}");
    assert_eq!(metadata_line("p", &metadata("{ \"x\": null }")), "p.metadata={\"x\":null}");
    assert_eq!(metadata_line("p", &None), "p.metadata={}");
    assert_eq!(put_result_text(b"a\xffb"), "a\u{fffd}b");
}

fn plan(granted_streams: usize) -> CreateUploadResponse {
    CreateUploadResponse {
        upload_id: "u".to_owned(),
        operation_id: "o".to_owned(),
        table_name: None,
        status: "PLANNED".to_owned(),
        requested_flavor: "small".to_owned(),
        granted_streams,
        expected_streams: granted_streams,
        staging_prefix: "s".to_owned(),
        target_file_size_bytes: 7,
        tickets: Vec::new(),
    }
}

#[test]
fn plans_and_commits_are_decoded() {
    let decode = |bytes: &[u8]| match bytes {
        b"none" => Ok(plan(0)),
        b"two" => Ok(plan(2)),
        _ => Err("expected value".to_owned()),
    };
    assert_eq!(read_plan(b"none", &decode).unwrap().upload_id, "u");
    assert_eq!(
        read_plan(b"two", &decode).unwrap_err().one_line(),
        "coordinator returned grantedStreams=2 but tickets=0"
    );
    assert_eq!(
        read_plan(b"?", &decode).unwrap_err().messages,
        ["failed to parse coordinator action coordinator.create-upload response", "expected value"]
    );
    let commit = |bytes: &[u8]| {
        let summary: Value = serde_json::from_slice(bytes).map_err(|error| error.to_string())?;
        Ok(CommitUploadResponse {
            upload_id: "u".to_owned(),
            status: "COMMITTED".to_owned(),
            table_name: "t".to_owned(),
            mode: "append".to_owned(),
            snapshot_id: 1,
            record_count: 2,
            parquet_object_bytes: 3,
            commit_summary: summary,
            files: Vec::new(),
            already_committed: false,
        })
    };
    let committed = parse_reply("c", b"{ \"added\" : \"1\" }", &commit).unwrap();
    assert_eq!(commit_summary_text(&committed), "{\"added\":\"1\"}");
    let error = parse_reply("c", b"", &commit).unwrap_err();
    assert_eq!(error.messages[0], "failed to parse coordinator action c response");
}
