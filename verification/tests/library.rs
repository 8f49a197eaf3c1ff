use zotero_csv_merge::csv::CsvReader;
use zotero_csv_merge::sync::{Cause, Event, Phase, Response, RetryPolicy, Step, SyncError};
use zotero_csv_merge::zotero::{
    HeaderValueExt, Method, Zotero, BACKOFF, DEFAULT_MAX_RETRIES, DEFAULT_MIN_BACKOFF_SECS, IF_UNMODIFIED_SINCE_VERSION,
    LAST_MODIFIED_VERSION, RETRY_AFTER,
};
use reqwest::header::HeaderValue;
use zotero_csv_merge::PatchData;

#[test]
fn group_gives_the_addresses() {
    let zotero = Zotero::set_group("4711", "secret");
    assert_eq!(zotero.api_token(), "secret");
    assert_eq!(zotero.version_url(), "https://api.zotero.org/groups/4711/collections");
    assert_eq!(zotero.items_url(), "https://api.zotero.org/groups/4711/items");
}

#[test]
fn group_may_be_empty() {
    let zotero = Zotero::set_group("", "");
    assert_eq!(zotero.api_token(), "");
    assert_eq!(zotero.version_url(), "https://api.zotero.org/groups//collections");
}

#[test]
fn default_policy_waits_and_gives_up() {
    let zotero = Zotero::set_group("1", "t");
    assert_eq!(DEFAULT_MIN_BACKOFF_SECS, 1);
    assert_eq!(DEFAULT_MAX_RETRIES, 10);
    assert_eq!(zotero.policy(), RetryPolicy::new(1, 10).unwrap());
    assert_eq!(zotero.policy().min_backoff_secs(), 1);
    assert_eq!(zotero.policy().max_retries(), 10);
}

#[test]
fn policy_can_be_changed() {
    let policy = RetryPolicy::new(3, 0).unwrap();
    let zotero = Zotero::set_group("1", "t").with_policy(policy);
    assert_eq!(zotero.policy(), policy);
    assert_eq!(zotero.api_token(), "t");
    assert_eq!(zotero.items_url(), "https://api.zotero.org/groups/1/items");
}

#[test]
fn header_names_are_those_of_the_service() {
    assert_eq!(IF_UNMODIFIED_SINCE_VERSION, "If-Unmodified-Since-Version");
    assert_eq!(LAST_MODIFIED_VERSION, "Last-Modified-Version");
    assert_eq!(BACKOFF, "Backoff");
    assert_eq!(RETRY_AFTER, "Retry-After");
}

#[test]
fn record_keeps_its_fields() {
    let record = PatchData::new("K".to_string(), "T".to_string(), "X".to_string());
    assert_eq!(record.key(), "K");
    assert_eq!(record.title(), "T");
    assert_eq!(record.extra(), "X");
}

#[test]
fn run_without_records_has_ended() {
    let zotero = Zotero::set_group("1", "t");
    let run = zotero.patch_all(Vec::new());
    assert_eq!(run.batch_count(), 0);
    assert_eq!(run.pending(), Step::Finish(Ok(())));
    assert_eq!(run.outcome(), Some(Ok(())));
    assert_eq!(run.applied(), 0);
    assert!(run.batch(0).is_none());
    assert!(matches!(Phase::Done(Ok(())), Phase::Done(Ok(()))));
}

#[test]
fn run_starts_with_a_version_fetch() {
    let zotero = Zotero::set_group("1", "t");
    let data = vec![PatchData::new("K".to_string(), "T".to_string(), "X".to_string())];
    let run = zotero.patch_all(data);
    assert_eq!(run.batch_count(), 1);
    assert_eq!(run.pending(), Step::FetchVersion);
    assert_eq!(run.outcome(), None);
    assert_eq!(run.applied(), 0);
    assert_eq!(run.batch(0).unwrap().len(), 1);
    assert_eq!(run.batch(0).unwrap()[0].key(), "K");
    assert!(run.batch(1).is_none());
}

#[test]
fn fetch_reads_the_collections() {
    let zotero = Zotero::set_group("4711", "secret");
    let request = zotero.request(Step::FetchVersion).unwrap();
    assert_eq!(request.method, Method::Get);
    assert_eq!(request.url, "https://api.zotero.org/groups/4711/collections");
    assert_eq!(request.if_unmodified_since_version, None);
    assert_eq!(request.body, None);
}

#[test]
fn submission_posts_the_batch_under_its_version() {
    let zotero = Zotero::set_group("4711", "secret");
    let request = zotero.request(Step::Submit { version: 70117, batch: 2 }).unwrap();
    assert_eq!(request.method, Method::Post);
    assert_eq!(request.url, "https://api.zotero.org/groups/4711/items");
    assert_eq!(request.if_unmodified_since_version, Some(70117));
    assert_eq!(request.body, Some(2));
}

#[test]
fn end_of_a_run_takes_no_request() {
    let zotero = Zotero::set_group("4711", "secret");
    assert!(zotero.request(Step::Finish(Ok(()))).is_none());
    let failure = SyncError { batch: 3, cause: Cause::Status(409) };
    assert!(zotero.request(Step::Finish(Err(failure))).is_none());
}

#[test]
fn test_library_version() {
    let zotero = Zotero::set_group("4711", "secret");
    let data = vec![PatchData::new("K".to_string(), "T".to_string(), "X".to_string())];
    let mut run = zotero.patch_all(data);
    let value = HeaderValue::from_static("70117");
    assert_eq!(value.to_u64(), Some(70117));
    let answer = Response { status: 200, backoff: None, retry_after: None, version: Some(value) };
    let action = run.step(&Event::Response(answer));
    assert_eq!(action.step, Step::Submit { version: 70117, batch: 0 });
}

#[test]
fn test_csv_reader() {
    let content = "Key,Title,Extra,Year\nABCD1234,A Book,note,1999\nEFGH5678,Another,,2004\n";
    let reader = CsvReader::new(content.as_bytes().to_vec());
    let data = reader.extract().expect("Failure reading csv file");
    assert_eq!(data.len(), 2);
    assert_eq!(data[1].key(), "EFGH5678");
}
