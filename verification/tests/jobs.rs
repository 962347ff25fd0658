use queue_rs::error::{QError, SERIALIZATION_FAILURE};
use queue_rs::job::{DeserializeJob, Execution, JobTrait, SerializeJob};
use queue_rs::queue::Queue;
use queue_rs::QResult;

/// A job that succeeds unless its title is empty.
struct TestJob {
    title: String,
}

impl TestJob {
    fn new(title: String) -> Self {
        TestJob { title }
    }
}

impl JobTrait for TestJob {
    fn execute(&self) -> QResult<()> {
        if self.title.is_empty() {
            Err(QError::new("TestJob", "no title".to_string()))
        } else {
            println!("test job [{}] executed", self.title);
            Ok(())
        }
    }
}

impl SerializeJob for TestJob {
    fn serialize_job(&self) -> QResult<String> {
        let title = serde_json::to_string(&self.title)
            .map_err(|error| QError::serialization(error.to_string()))?;
        Ok(format!("{{\"type\":\"TestJob\",\"title\":{}}}", title))
    }
}

impl DeserializeJob for TestJob {
    fn deserialize_job(payload: &str) -> QResult<Self> {
        let value: serde_json::Value = serde_json::from_str(payload)
            .map_err(|error| QError::serialization(error.to_string()))?;
        let tag = value.get("type").and_then(|tag| tag.as_str());
        let title = value.get("title").and_then(|title| title.as_str());
        match (tag, title) {
            (Some("TestJob"), Some(title)) => Ok(TestJob::new(title.to_string())),
            _ => Err(QError::serialization("unknown variant".to_string())),
        }
    }
}

fn queue() -> Queue {
    Queue::new("test", redis::Client::open("redis://127.0.0.1:1/").unwrap())
}

#[test]
fn hand_written_job_writes_its_type_and_title() {
    let job = TestJob::new("first job".to_string());
    let json = job.serialize_job().unwrap();
    assert_eq!(json, "{\"type\":\"TestJob\",\"title\":\"first job\"}");
    let de = TestJob::deserialize_job(&json).unwrap();
    assert_eq!(de.execute().is_ok(), true);
}

#[test]
fn job_read_back_executes_as_the_job_itself() {
    for title in ["first job", "", "a;b", "\"quoted\""] {
        let job = TestJob::new(title.to_string());
        let back = TestJob::deserialize_job(&job.serialize_job().unwrap()).unwrap();
        assert_eq!(back.title, job.title);
        assert_eq!(back.execute().is_ok(), job.execute().is_ok());
    }
}

#[test]
fn handle_message_reports_success() {
    let payload = TestJob::new("first job".to_string()).serialize_job().unwrap();
    let report = queue().handle_message::<TestJob>((1, payload, 300, 1));
    assert!(matches!(report, Ok(Execution::Succeeded)));
}

#[test]
fn handle_message_reports_the_failure_of_the_job() {
    let payload = TestJob::new(String::new()).serialize_job().unwrap();
    let report = queue().handle_message::<TestJob>((1, payload, 300, 1));
    match report {
        Ok(Execution::Failed(error)) => {
            assert_eq!(error.kind(), "TestJob");
            assert_eq!(error.message(), "no title");
        }
        _ => panic!("the job was meant to fail"),
    }
}

#[test]
fn handle_message_fails_on_a_payload_that_cannot_be_read() {
    let report = queue().handle_message::<TestJob>((1, "not json".to_string(), 300, 1));
    assert!(report.unwrap_err().has_kind(SERIALIZATION_FAILURE));
    let other = queue().handle_message::<TestJob>((1, "{\"type\":\"Other\"}".to_string(), 300, 1));
    assert!(other.unwrap_err().has_kind(SERIALIZATION_FAILURE));
}

#[test]
fn push_and_cycle_fail_where_the_store_cannot_be_reached() {
    let job = TestJob::new("first job".to_string());
    assert!(queue().push(job).is_err());
    assert!(queue().cycle::<TestJob>(0).is_err());
}

#[test]
fn execution_is_what_the_job_returned() {
    assert!(matches!(Execution::of(Ok(())), Execution::Succeeded));
    match Execution::of(Err(QError::new("job", "broken".to_string()))) {
        Execution::Failed(error) => assert_eq!(error.message(), "broken"),
        Execution::Succeeded => panic!("a failure was handed in"),
    }
}
