use log::{Level, Log, Metadata, Record};
use rocket::http::{Method, Status};
use rocket::local::blocking::Client;
use rocket::route::{BoxFuture, Outcome};
use rocket::{Data, Request, Route};
use statsig_forward_proxy::utils::sdk_key_redacting_logger::{
    format_record, is_enabled, LogLevel, LogLevelFilter, LogRecord, LogSink,
    SdkKeyRedactingLogger,
};
use std::sync::{Arc, Mutex, OnceLock};

const FULL_KEY: &str = "client-abcdefghijklmnopqrstuvwxyz";
const REDACTED_KEY: &str = "client-abcdefghijklm***";

static LINES: Mutex<Vec<String>> = Mutex::new(Vec::new());

struct GlobalSink;

impl LogSink for GlobalSink {
    fn write_line(&self, line: &str) {
        LINES.lock().unwrap().push(line.to_owned());
    }
}

fn level_of(level: Level) -> LogLevel {
    match level {
        Level::Error => LogLevel::Error,
        Level::Warn => LogLevel::Warn,
        Level::Info => LogLevel::Info,
        Level::Debug => LogLevel::Debug,
        Level::Trace => LogLevel::Trace,
    }
}

/// Hands the records of the `log` crate to the logger.
struct Adapter(SdkKeyRedactingLogger<GlobalSink>);

impl Log for Adapter {
    fn enabled(&self, metadata: &Metadata<'_>) -> bool {
        is_enabled(
            level_of(metadata.level()),
            LogLevelFilter::UpTo(LogLevel::Warn),
        )
    }

    fn log(&self, record: &Record<'_>) {
        self.0.log(
            &LogRecord {
                level: level_of(record.level()),
                target: record.target().to_string(),
                source_module: None,
                file: record.file().map(str::to_string),
                line: record.line(),
                message: record.args().to_string(),
            },
            LogLevelFilter::UpTo(LogLevel::Warn),
        );
    }

    fn flush(&self) {}
}

fn matched<'r>(request: &'r Request<'_>, _data: Data<'r>) -> BoxFuture<'r> {
    Box::pin(async move { Outcome::from(request, "ok") })
}

fn client() -> Client {
    static INSTALLED: OnceLock<()> = OnceLock::new();
    INSTALLED.get_or_init(|| {
        log::set_boxed_logger(Box::new(Adapter(SdkKeyRedactingLogger::new(GlobalSink))))
            .expect("no other logger should be installed in this test binary");
        // The filter that a log level of `critical` produces.
        log::set_max_level(log::LevelFilter::Warn);
    });
    let route = Route::new(Method::Get, "/matched", matched);
    Client::untracked(rocket::build().mount("/", vec![route])).expect("client should build")
}

fn no_matching_routes_lines_for(path_fragment: &str) -> Vec<String> {
    LINES
        .lock()
        .unwrap()
        .iter()
        .filter(|line| line.contains("No matching routes") && line.contains(path_fragment))
        .cloned()
        .collect()
}

fn assert_no_full_key_logged() {
    let lines = LINES.lock().unwrap();
    assert!(
        lines.iter().all(|line| !line.contains(FULL_KEY)),
        "full SDK key leaked into logs: {lines:#?}"
    );
}

#[test]
fn unmatched_route_log_redacts_keys_in_path_and_query() {
    let client = client();
    let response = client
        .get(format!(
            "/rgstr/{FULL_KEY}?token={FULL_KEY}&st=javascript-client"
        ))
        .dispatch();
    assert_eq!(response.status(), Status::NotFound);

    let lines = no_matching_routes_lines_for("/rgstr/");
    assert_eq!(
        lines,
        vec![format!(
            "   >> No matching routes for GET /rgstr/{REDACTED_KEY}?token={REDACTED_KEY}&st=javascript-client."
        )]
    );
    assert_no_full_key_logged();
}

#[test]
fn head_request_to_get_route_does_not_leak_the_key() {
    // Rocket routes HEAD once (logging "No matching routes") before retrying it as GET.
    let client = client();
    let response = client.head(format!("/matched?k={FULL_KEY}")).dispatch();
    assert_eq!(response.status(), Status::Ok);

    let lines = no_matching_routes_lines_for("/matched?k=");
    assert_eq!(
        lines,
        vec![format!(
            "   >> No matching routes for HEAD /matched?k={REDACTED_KEY}."
        )]
    );
    assert_no_full_key_logged();
}

#[test]
fn unmatched_route_log_redacts_keys_after_percent_escapes() {
    let client = client();
    let response = client
        .get(format!("/v1/download_config_specs%2F{FULL_KEY}.json"))
        .dispatch();
    assert_eq!(response.status(), Status::NotFound);

    let lines = no_matching_routes_lines_for("/v1/download_config_specs%2F");
    assert_eq!(
        lines,
        vec![format!(
            "   >> No matching routes for GET /v1/download_config_specs%2F{REDACTED_KEY}.json."
        )]
    );
    assert_no_full_key_logged();
}

struct CapturingSink(Arc<Mutex<Vec<String>>>);

impl LogSink for CapturingSink {
    fn write_line(&self, line: &str) {
        self.0.lock().unwrap().push(line.to_owned());
    }
}

fn record(level: LogLevel, target: &str, message: &str) -> LogRecord {
    LogRecord {
        level,
        target: target.to_string(),
        source_module: Some("rocket::server".to_string()),
        file: None,
        line: None,
        message: message.to_string(),
    }
}

fn log_line(level: LogLevel, target: &str, message: &str) -> String {
    let lines = Arc::new(Mutex::new(Vec::new()));
    let logger = SdkKeyRedactingLogger::new(CapturingSink(Arc::clone(&lines)));
    assert!(logger.log(&record(level, target, message), LogLevelFilter::Off));
    let lines = lines.lock().unwrap();
    assert_eq!(lines.len(), 1);
    lines[0].clone()
}

#[test]
fn redacts_sdk_keys_and_keeps_rocket_error_shape() {
    assert_eq!(
        log_line(
            LogLevel::Error,
            "rocket::server::_",
            "No matching routes for HEAD /v1/download_config_specs/client-abcdefghijklmnopqrstuvwxyz.json?token=secret-abcdefghijklmnopqrstuvwxyz."
        ),
        "   >> No matching routes for HEAD /v1/download_config_specs/client-abcdefghijklm***.json?token=secret-abcdefghijklm***."
    );
    assert_eq!(
        log_line(LogLevel::Error, "rocket::server", "boom"),
        "Error: boom"
    );
    assert_eq!(
        log_line(LogLevel::Warn, "rocket::server", "careful"),
        "Warning: careful"
    );
    assert_eq!(log_line(LogLevel::Info, "rocket::server", "hello"), "hello");
}

#[test]
fn transport_is_logged_only_where_everything_is() {
    let mut transport = record(LogLevel::Debug, "hyper", "bytes");
    transport.source_module = Some("hyper::proto".to_string());
    transport.file = Some("conn.rs".to_string());
    transport.line = Some(7);
    assert_eq!(
        format_record(&transport, LogLevelFilter::UpTo(LogLevel::Debug)),
        None
    );
    assert_eq!(
        format_record(&transport, LogLevelFilter::UpTo(LogLevel::Trace)).as_deref(),
        Some("--> conn.rs:7\n\tbytes")
    );
    assert!(!is_enabled(
        LogLevel::Info,
        LogLevelFilter::UpTo(LogLevel::Warn)
    ));
}
