//! The gateway's configuration and limit checks, and the message formatting
//! of the IPC service.

use sandbox_engine::formatting::{format_ai_response, FormattedMessage, MessageStream, MessageType};
use sandbox_engine::gateway::config::{Config, ConfigError, SingleStoreConfig};
use sandbox_engine::gateway::error::AppError;
use sandbox_engine::gateway::rate_limit::RateLimiter;
use sandbox_engine::gateway::video::{Video, VideoMetadata, VideoStatus};
use sandbox_engine::ipc::{IPCHandler, Message, Response};

fn valid_config() -> Config {
    Config {
        port: 8000,
        redis_url: String::from("redis://127.0.0.1:6379"),
        upload_dir: String::from("/data/videos"),
        allowed_origins: vec![String::from("http://localhost:3000")],
        singlestore: SingleStoreConfig {
            url: String::from("mysql://root:pw@127.0.0.1:3306/video_analysis"),
            pool_max_connections: 10,
        },
    }
}

#[test]
fn valid_gateway_config_passes() {
    assert_eq!(valid_config().validate(), Ok(()));
}

#[test]
fn gateway_config_rejects_each_broken_rule() {
    let mut c = valid_config();
    c.port = 0;
    assert_eq!(c.validate(), Err(ConfigError::ZeroPort));

    let mut c = valid_config();
    c.redis_url = String::from("http://127.0.0.1");
    assert_eq!(c.validate(), Err(ConfigError::BadRedisUrl));

    let mut c = valid_config();
    c.upload_dir = String::new();
    assert_eq!(c.validate(), Err(ConfigError::EmptyUploadDir));

    let mut c = valid_config();
    c.singlestore.pool_max_connections = 0;
    assert_eq!(c.validate(), Err(ConfigError::ZeroPoolMaxConnections));

    let mut c = valid_config();
    c.singlestore.url = String::from("postgres://x");
    assert_eq!(c.validate(), Err(ConfigError::BadStoreUrl));
}

#[test]
fn store_config_validates_on_its_own() {
    let good = SingleStoreConfig { url: String::from("mysql://h"), pool_max_connections: 1 };
    assert_eq!(good.validate(), Ok(()));
    let bad = SingleStoreConfig { url: String::from("mysql://h"), pool_max_connections: 0 };
    assert_eq!(bad.validate(), Err(ConfigError::ZeroPoolMaxConnections));
}

#[test]
fn rate_limiter_carries_the_stock_limits() {
    let limiter = RateLimiter::new(String::from("redis://127.0.0.1:6379"));
    assert_eq!(limiter.redis_url, "redis://127.0.0.1:6379");
    assert_eq!(limiter.max_requests_per_minute, 60);
    assert_eq!(limiter.max_uploads_per_hour, 100);
    assert_eq!(limiter.max_file_size, 2 * 1024 * 1024 * 1024);
}

#[test]
fn file_size_limit_is_enforced_strictly_above() {
    let limiter = RateLimiter::new(String::from("redis://x"));
    assert_eq!(limiter.check_file_size(0), Ok(()));
    assert_eq!(limiter.check_file_size(2 * 1024 * 1024 * 1024), Ok(()));
    assert_eq!(
        limiter.check_file_size(2 * 1024 * 1024 * 1024 + 1),
        Err(AppError::InvalidInput)
    );
}

#[test]
fn windows_exhaust_exactly_at_their_limits() {
    let limiter = RateLimiter::new(String::from("redis://x"));
    assert!(!limiter.request_limit_reached(None));
    assert!(!limiter.request_limit_reached(Some(59)));
    assert!(limiter.request_limit_reached(Some(60)));
    assert!(!limiter.upload_limit_reached(Some(99)));
    assert!(limiter.upload_limit_reached(Some(100)));
}

#[test]
fn video_record_carries_its_fields() {
    let video = Video {
        id: String::from("v1"),
        filename: String::from("clip.mp4"),
        status: VideoStatus::Processing,
        created_at: 1,
        updated_at: 2,
        error_message: None,
        metadata: Some(VideoMetadata {
            duration: Some(String::from("00:01:00")),
            size: Some(1024),
            format: Some(String::from("mp4")),
        }),
        archived: Some(false),
        archive_path: None,
    };
    assert_eq!(video.status, VideoStatus::Processing);
    assert_eq!(video.metadata.as_ref().unwrap().size, Some(1024));
    let copy = video.clone();
    assert_eq!(copy.id, "v1");
    assert_eq!(copy.filename, "clip.mp4");
}

#[test]
fn ai_response_with_code_block_is_typed_code() {
    let msg = format_ai_response("use this:\n```rust\nfn main() {}\n```");
    assert_eq!(msg.message_type, MessageType::Code);
    let meta = msg.metadata.unwrap();
    assert_eq!(meta.has_code, Some(true));
    assert_eq!(meta.length, Some(msg.text.chars().count()));
    assert_eq!(meta.streaming, None);
    assert_eq!(meta.is_final, None);
}

#[test]
fn plain_ai_response_is_typed_text() {
    let msg = format_ai_response("hello there");
    assert_eq!(msg.message_type, MessageType::Text);
    assert_eq!(msg.text, "hello there");
    let meta = msg.metadata.unwrap();
    assert_eq!(meta.has_code, None);
    assert_eq!(meta.length, Some(11));
}

#[test]
fn message_stream_cuts_fixed_chunks() {
    let mut stream = MessageStream::new(5);
    let first = stream.add_content("hello wor");
    assert_eq!(first.len(), 1);
    assert_eq!(first[0].text, "hello");
    assert_eq!(first[0].message_type, MessageType::Text);
    assert_eq!(first[0].metadata.unwrap().streaming, Some(true));
    assert_eq!(first[0].metadata.unwrap().is_final, None);

    let second = stream.add_content("ld!");
    assert_eq!(second.len(), 1);
    assert_eq!(second[0].text, " worl");

    let tail = stream.flush().unwrap();
    assert_eq!(tail.text, "d!");
    assert_eq!(tail.metadata.unwrap().is_final, Some(true));
    assert!(stream.flush().is_none());
}

#[test]
fn message_stream_emits_every_full_chunk_at_once() {
    let mut stream = MessageStream::new(2);
    let messages = stream.add_content("abcdef");
    let texts: Vec<&str> = messages.iter().map(|m| m.text.as_str()).collect();
    assert_eq!(texts, vec!["ab", "cd", "ef"]);
    assert!(stream.flush().is_none());
}

struct EchoHandler;

impl IPCHandler for EchoHandler {
    fn handle_message(&self, message: Message) -> Result<Response, String> {
        Ok(Response {
            message_id: message.id,
            content: message.content,
            status: String::from("complete"),
        })
    }
}

#[test]
fn ipc_handler_round_trips_a_message() {
    let handler = EchoHandler;
    let response = handler
        .handle_message(Message {
            id: String::from("m1"),
            chat_id: String::from("c1"),
            content: String::from("ping"),
            message_type: String::from("text"),
        })
        .unwrap();
    assert_eq!(response.message_id, "m1");
    assert_eq!(response.content, "ping");
    assert_eq!(response.status, "complete");
}

#[test]
fn formatted_message_clones_cleanly() {
    let msg = format_ai_response("x");
    let copy: FormattedMessage = msg.clone();
    assert_eq!(copy.text, msg.text);
    assert_eq!(copy.message_type, msg.message_type);
}

#[test]
fn stream_tokens_split_at_word_boundaries() {
    let tokens = sandbox_engine::formatting::split_tokens("hello world, ok");
    assert_eq!(tokens, vec!["hello ", "world,", " ", "ok"]);
    // A response with no boundary is one final token.
    assert_eq!(sandbox_engine::formatting::split_tokens("word"), vec!["word"]);
    // A trailing boundary leaves no dangling token.
    assert_eq!(sandbox_engine::formatting::split_tokens("a b "), vec!["a ", "b "]);
    assert_eq!(sandbox_engine::formatting::split_tokens(""), Vec::<String>::new());
    // Punctuation closes a token just as whitespace does.
    assert_eq!(sandbox_engine::formatting::split_tokens("x;y"), vec!["x;", "y"]);
}
