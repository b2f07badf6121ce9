use s3_cli::cli::{BucketCommands, Commands, FileCommands, MultpartCommands, ProviderCommands};
use s3_cli::config::{config_text_with_provider, endpoint_domain, endpoint_label, Config, Keys, ProviderError};
use s3_cli::content::single_put_request;
use s3_cli::naming::{download_file_path, file_name_of, upload_object_key};
use s3_cli::regions::{
    lookup_bucket_region, record_bucket_location, region_for_location, region_key, RegionLookup,
    Regions,
};
use s3_cli::table::StringTable;

fn keys(url: &str) -> Keys {
    Keys { key_id: "id".to_string(), secret_key: "secret".to_string(), endpoint_url: url.to_string() }
}

fn config() -> Config {
    let mut providers = StringTable::new();
    providers.insert("default".to_string(), keys(""));
    providers.insert("R2".to_string(), keys("https://abc.r2.cloudflarestorage.com"));
    Config { current_provider: "default".to_string(), providers }
}

#[test]
fn active_provider_is_looked_up() {
    let c = config();
    assert_eq!(c.active_provider().unwrap().key_id, "id");
    let mut missing = config();
    missing.current_provider = "nope".to_string();
    assert!(matches!(missing.active_provider(), Err(ProviderError::ActiveProviderMissing)));
}

#[test]
fn selecting_a_provider() {
    let mut c = config();
    assert!(c.select_provider("R2".to_string()).is_ok());
    assert_eq!(c.current_provider, "R2");
    match c.select_provider("AWS".to_string()) {
        Err(ProviderError::NotFound { name }) => assert_eq!(name, "AWS"),
        other => panic!("unexpected {:?}", other),
    }
    assert_eq!(c.current_provider, "R2");
}

#[test]
fn provider_choice_is_written_into_the_document() {
    let text = "current_provider = \"default\"\n\n[default]\nkey_id = \"\"\n";
    let updated = config_text_with_provider(text, "R2").unwrap();
    assert!(updated.contains("current_provider = \"R2\""));
    assert!(updated.contains("[default]"));
    assert!(!updated.contains("\"default\"\n"));
    assert!(matches!(
        config_text_with_provider("current_provider = ", "R2"),
        Err(ProviderError::InvalidDocument(_))
    ));
}

#[test]
fn endpoint_domains() {
    assert_eq!(endpoint_domain("https://s3.us-east-1.amazonaws.com"), "amazonaws.com");
    assert_eq!(endpoint_domain("https://abc.r2.cloudflarestorage.com"), "cloudflarestorage.com");
    assert_eq!(endpoint_domain("minio.local"), "minio.local");
    assert_eq!(endpoint_domain("localhost"), "localhost");
    assert_eq!(endpoint_domain("a.b.c"), "b.c");
    assert_eq!(endpoint_domain(""), "");
    assert_eq!(endpoint_label(""), "Unconfigured");
    assert_eq!(endpoint_label("x.y.z"), "y.z");
}

#[test]
fn provider_summaries_list_every_provider() {
    let list = config().provider_summaries();
    assert_eq!(
        list,
        vec![
            ("default".to_string(), "Unconfigured".to_string()),
            ("R2".to_string(), "cloudflarestorage.com".to_string()),
        ]
    );
}

#[test]
fn versioning_is_off_for_cloudflare() {
    assert!(!keys("https://abc.r2.cloudflarestorage.com").supports_versioning());
    assert!(keys("https://s3.amazonaws.com").supports_versioning());
    assert!(keys("").supports_versioning());
}

#[test]
fn string_table_reads_back_what_was_written() {
    let mut t: StringTable<String> = StringTable::new();
    t.insert("a".to_string(), "1".to_string());
    t.insert("b".to_string(), "2".to_string());
    t.insert("a".to_string(), "3".to_string());
    assert_eq!(t.len(), 2);
    assert_eq!(t.entry(0), (&"a".to_string(), &"3".to_string()));
    assert_eq!(t.entry(1), (&"b".to_string(), &"2".to_string()));
    assert_eq!(t.get(&"a".to_string()), Some(&"3".to_string()));
    assert_eq!(t.get(&"c".to_string()), None);
    assert!(t.contains_key(&"b".to_string()));
}

#[test]
fn region_keys_and_locations() {
    assert_eq!(region_key("default", "photos"), "default#photos");
    assert_eq!(region_for_location(None), "us-east-1");
    assert_eq!(region_for_location(Some("EU".to_string())), "eu-west-1");
    assert_eq!(region_for_location(Some("ap-south-1".to_string())), "ap-south-1");
}

#[test]
fn recorded_region_is_cached_and_not_replaced() {
    let mut r = Regions::new();
    assert_eq!(lookup_bucket_region(&r, "default", "photos"), RegionLookup::Fetch);
    let (region, changed) = record_bucket_location(&mut r, "default", "photos", Some("EU".to_string()));
    assert_eq!(region, "eu-west-1");
    assert!(changed);
    assert!(r.has_region("default", "photos"));
    assert_eq!(
        lookup_bucket_region(&r, "default", "photos"),
        RegionLookup::Cached("eu-west-1".to_string())
    );
    assert_eq!(lookup_bucket_region(&r, "R2", "photos"), RegionLookup::Fetch);
    let (region, changed) = record_bucket_location(&mut r, "default", "photos", None);
    assert_eq!(region, "us-east-1");
    assert!(!changed);
    assert_eq!(r.cached_region("default", "photos"), Some("eu-west-1".to_string()));
    r.store_region("default", "photos", "us-west-2".to_string());
    assert_eq!(r.cached_region("default", "photos"), Some("us-west-2".to_string()));
    assert_eq!(r.buckets.len(), 1);
}

#[test]
fn upload_keys() {
    assert_eq!(upload_object_key("/home/me/pics/cat.png", None), "cat.png");
    assert_eq!(upload_object_key("cat.png", None), "cat.png");
    assert_eq!(upload_object_key("/tmp/dir/", None), "");
    assert_eq!(upload_object_key("/tmp/cat.png", Some("dog.png".to_string())), "dog.png");
    assert_eq!(file_name_of("a/b/c"), "c");
}

#[test]
fn download_paths() {
    assert_eq!(download_file_path("/tmp/out", "report.pdf", None), "/tmp/out/report.pdf");
    assert_eq!(download_file_path("\"/tmp/out//\"", "report.pdf", None), "/tmp/out/report.pdf");
    assert_eq!(
        download_file_path("/tmp/out/", "report.pdf", Some("\"final\".pdf".to_string())),
        "/tmp/out/final.pdf"
    );
    assert_eq!(download_file_path("/", "a", None), "/a");
    assert_eq!(download_file_path("", "dir/a", None), "/dir/a");
}

#[test]
fn regional_buckets_of_commands() {
    let delete = Commands::Buckets {
        commands: BucketCommands::Delete { name: "b1".to_string(), custom_provider: None },
    };
    assert_eq!(delete.regional_bucket(), Some(&"b1".to_string()));
    let create = Commands::Buckets {
        commands: BucketCommands::Create {
            name: "b1".to_string(),
            region: "eu".to_string(),
            custom_provider: None,
        },
    };
    assert_eq!(create.regional_bucket(), None);
    let upload = Commands::Files {
        commands: FileCommands::Upload {
            bucket: "b2".to_string(),
            location: "x".to_string(),
            override_filename: None,
            custom_provider: None,
            verbose: false,
        },
    };
    assert_eq!(upload.regional_bucket(), Some(&"b2".to_string()));
    let list = Commands::Multipart {
        commands: MultpartCommands::List { bucket: "b3".to_string(), custom_provider: None },
    };
    assert_eq!(list.regional_bucket(), Some(&"b3".to_string()));
    let provider = Commands::Provider { commands: ProviderCommands::Get };
    assert_eq!(provider.regional_bucket(), None);
    assert_eq!(Commands::Init {}.regional_bucket(), None);
}

#[test]
fn single_put_request_keeps_bucket_and_key() {
    let req = single_put_request("b".to_string(), "k.bin".to_string(), &[0u8, 1, 2, 3]);
    assert_eq!(req.bucket, "b");
    assert_eq!(req.key, "k.bin");
    assert!(!req.content_type.is_empty());
}

#[test]
fn selected_provider_becomes_active() {
    let mut c = config();
    c.select_provider("R2".to_string()).unwrap();
    assert_eq!(
        c.active_provider().unwrap().endpoint_url,
        "https://abc.r2.cloudflarestorage.com"
    );
}
