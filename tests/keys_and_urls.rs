use cos_client::{client_id, greet, staging_file_name, CosClient, CosConfig};

fn config(dir: Option<&str>, domain: Option<&str>) -> CosConfig {
    CosConfig {
        app_id: "1250000000".to_string(),
        secret_id: "AKIDEXAMPLE".to_string(),
        secret_key: "secretkey".to_string(),
        bucket: "demo".to_string(),
        region: "ap-guangzhou".to_string(),
        domain: domain.map(|d| d.to_string()),
        dir: dir.map(|d| d.to_string()),
    }
}

#[test]
fn full_key_under_directory() {
    let c = CosClient::new(config(Some("assets"), None));
    assert_eq!(c.get_full_key("pic.png"), "assets/pic.png");
    assert_eq!(c.get_full_key("assets/pic.png"), "assets/pic.png");
    let c = CosClient::new(config(Some("assets/"), None));
    assert_eq!(c.get_full_key("pic.png"), "assets/pic.png");
}

#[test]
fn full_key_default_namespace() {
    let c = CosClient::new(config(None, None));
    assert_eq!(c.get_full_key("a.png"), "ImSheet/a.png");
    assert_eq!(c.get_full_key("ImSheet/a.png"), "ImSheet/a.png");
    assert_eq!(c.get_full_key(""), "ImSheet/");
}

#[test]
fn full_key_resolution_is_idempotent() {
    for dir in [None, Some("assets"), Some("a/b/")] {
        let c = CosClient::new(config(dir, None));
        for key in ["x.png", "assets/x.png", "ImSheet/y", "", "a/b/c"] {
            let once = c.get_full_key(key);
            let twice = c.get_full_key(&once);
            assert_eq!(once, twice);
        }
    }
}

#[test]
fn object_url_on_service_host() {
    let c = CosClient::new(config(Some("assets"), None));
    assert_eq!(
        c.get_object_url("pic.png"),
        "https://demo.cos.ap-guangzhou.myqcloud.com/assets/pic.png"
    );
}

#[test]
fn object_url_on_custom_domain() {
    let c = CosClient::new(config(None, Some("https://cdn.example.com")));
    assert_eq!(c.get_object_url("a.png"), "https://cdn.example.com/ImSheet/a.png");
}

#[test]
fn client_identifier() {
    assert_eq!(client_id(&config(None, None)), "demo_ap-guangzhou");
}

#[test]
fn greeting() {
    assert_eq!(greet("Ann"), "Hello, Ann! You've been greeted from Rust!");
}

#[test]
fn staging_name_flattens_slashes() {
    assert_eq!(staging_file_name("a/b/c.png"), "tauri_upload_a_b_c.png");
    assert_eq!(staging_file_name(""), "tauri_upload_");
}
