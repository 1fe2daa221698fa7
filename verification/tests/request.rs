use pup::config::UserConfig;
use pup::encode::encode;
use pup::request::Uploader;

fn config() -> UserConfig {
    UserConfig {
        github_user_name: String::from("steve"),
        github_repo_name: String::from("pic"),
        mail: String::from("steve@example.com"),
        token: Some(String::from("abc123")),
    }
}

#[test]
fn base64_of_short_inputs() {
    assert_eq!(encode(b""), b"".to_vec());
    assert_eq!(encode(b"f"), b"Zg==".to_vec());
    assert_eq!(encode(b"fo"), b"Zm8=".to_vec());
    assert_eq!(encode(b"foo"), b"Zm9v".to_vec());
    assert_eq!(encode(b"foob"), b"Zm9vYg==".to_vec());
    assert_eq!(encode(b"fooba"), b"Zm9vYmE=".to_vec());
    assert_eq!(encode(b"foobar"), b"Zm9vYmFy".to_vec());
    assert_eq!(encode(&[0xfb, 0xff, 0xfe]), b"+//+".to_vec());
}

#[test]
fn base64_length_is_four_for_three() {
    for n in 0..50usize {
        let input = vec![7u8; n];
        assert_eq!(encode(&input).len(), n / 3 * 4 + if n % 3 > 0 { 4 } else { 0 });
    }
}

#[test]
fn uploader_headers() {
    let uploader = Uploader::init("abc123");
    let pairs: Vec<(&str, &str)> =
        uploader.header.iter().map(|h| (h.name.as_str(), h.value.as_str())).collect();
    assert_eq!(
        pairs,
        vec![
            ("User-Agent", "pup"),
            ("accept", "application/vnd.github.v3+json"),
            ("Authorization", "token abc123"),
        ]
    );
}

#[test]
fn request_url_and_body() {
    let req = Uploader::request("doc.png", b"hello", &config());
    assert_eq!(req.url, "https://api.github.com/repos/steve/pic/contents/doc.png");
    assert_eq!(
        String::from_utf8(req.body).unwrap(),
        "{\"message\": \"upload\", \"commiter\": {\"name\": \"steve\", \"email\":\"steve@example.com\"}, \"content\": \"aGVsbG8=\"}"
    );
}

#[test]
fn upload_names_the_file_by_its_last_component() {
    let uploader = Uploader::init("t");
    let req = uploader.upload("/home/steve/pictures/doc.png", b"foo", &config());
    assert_eq!(req.url, "https://api.github.com/repos/steve/pic/contents/doc.png");
    assert_eq!(
        String::from_utf8(req.body).unwrap(),
        "{\"message\": \"upload\", \"commiter\": {\"name\": \"steve\", \"email\":\"steve@example.com\"}, \"content\": \"Zm9v\"}"
    );
    let same = uploader.try_upload("pictures/./doc.png", b"foo", &config()).unwrap();
    assert_eq!(same.url, "https://api.github.com/repos/steve/pic/contents/doc.png");
}

#[test]
fn path_without_file_name_gives_no_request() {
    let uploader = Uploader::init("t");
    assert!(uploader.try_upload("..", b"foo", &config()).is_none());
    assert!(uploader.try_upload("/", b"foo", &config()).is_none());
    assert!(uploader.try_upload("", b"foo", &config()).is_none());
    assert!(uploader.try_upload("a/..", b"foo", &config()).is_none());
    assert!(uploader.try_upload("a.png", b"foo", &config()).is_some());
}

#[test]
fn fetched_token_completes_the_settings() {
    let bare = UserConfig {
        github_user_name: String::from("steve"),
        github_repo_name: String::from("pic"),
        mail: String::from("steve@example.com"),
        token: None,
    };
    let loaded = bare.with_token(String::from("abc123"));
    assert_eq!(loaded.token.as_deref(), Some("abc123"));
    assert_eq!(loaded.github_user_name, "steve");
    assert_eq!(loaded.github_repo_name, "pic");
    assert_eq!(loaded.mail, "steve@example.com");
}
