use rsmd::directory::MarkdownFile;
use rsmd::server::{file_names, ServerConfig};

#[test]
fn test_server_config_default() {
    let config = ServerConfig::default();
    assert_eq!(config.host, "127.0.0.1");
    assert_eq!(config.port, 3000);
    assert_eq!(config.address(), "127.0.0.1:3000");
}

#[test]
fn test_server_config_custom() {
    let config = ServerConfig::new("0.0.0.0".to_string(), 8080);
    assert_eq!(config.host, "0.0.0.0");
    assert_eq!(config.port, 8080);
    assert_eq!(config.address(), "0.0.0.0:8080");
}

#[test]
fn test_file_names_in_order() {
    let files = vec![
        MarkdownFile {
            name: "a.md".to_string(),
            path: "/r/a.md".to_string(),
        },
        MarkdownFile {
            name: "docs/b.md".to_string(),
            path: "/r/docs/b.md".to_string(),
        },
    ];
    let names = file_names(&files);
    assert_eq!(names, vec!["a.md".to_string(), "docs/b.md".to_string()]);
}
