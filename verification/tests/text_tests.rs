use podcast_backend::model::{Episode, EpisodeType, PodcastData, PodcastEntry, Profile};
use podcast_backend::resources::{
    absolute_media_url, absolute_url, file_extension, mime_type_for, public_resource_url_from_segments,
    resource_file_name, sanitize_file_name, sanitize_path_segment, url_path_escape,
    validate_extension, validate_size,
};
use podcast_backend::error::StoreError;
use podcast_backend::rss::{build_rss_feed, podcast_categories, write_itunes_category};
use podcast_backend::text::{blank, decimal_string, fallback_title};
use podcast_backend::xml::{element, empty_element_attr, xml_escape};

#[test]
fn sanitize_path_segment_keeps_safe_characters() {
    assert_eq!(sanitize_path_segment("Alice Smith"), "Alice_Smith");
    assert_eq!(sanitize_path_segment("a/b..c!"), "abc");
    assert_eq!(sanitize_path_segment("Ünïcode"), "ncode");
    assert_eq!(sanitize_path_segment("///"), "Untitled");
    assert_eq!(sanitize_path_segment(""), "Untitled");
    let once = sanitize_path_segment("My Show: Part 2");
    assert_eq!(sanitize_path_segment(&once), once);
}

#[test]
fn sanitize_file_name_takes_last_part() {
    assert_eq!(sanitize_file_name("hello world.mp3"), "hello_world.mp3");
    assert_eq!(sanitize_file_name("C:\\music\\song.mp3"), "song.mp3");
    assert_eq!(sanitize_file_name("a/b/c.png"), "c.png");
    assert_eq!(sanitize_file_name("dir/"), "file");
    assert_eq!(sanitize_file_name("@@"), "file");
    let once = sanitize_file_name("x y/z w.ogg");
    assert_eq!(sanitize_file_name(&once), once);
}

#[test]
fn resource_file_name_of_urls() {
    assert_eq!(
        resource_file_name("/resources/A/B/cover.png"),
        Some("cover.png".to_string())
    );
    assert_eq!(resource_file_name("https://x/y/"), Some("file".to_string()));
}

#[test]
fn resource_urls_join_sanitized_parts() {
    assert_eq!(
        public_resource_url_from_segments(&["Alice Smith", "API Show"], "cover.png"),
        "/resources/Alice_Smith/API_Show/cover.png"
    );
    assert_eq!(
        public_resource_url_from_segments(&["A"], "."),
        "/resources/A"
    );
    assert_eq!(public_resource_url_from_segments(&[], "."), "/resources/.");
}

#[test]
fn absolute_urls() {
    assert_eq!(absolute_url("https://cdn/x.png", "http://b"), "https://cdn/x.png");
    assert_eq!(absolute_url("http://cdn/x.png", "http://b"), "http://cdn/x.png");
    assert_eq!(absolute_url("/resources/x.png", "http://b"), "http://b/resources/x.png");
    assert_eq!(absolute_url("x.png", "http://b"), "http://b/x.png");
    assert_eq!(absolute_media_url(Some("  "), "http://b"), None);
    assert_eq!(absolute_media_url(None, "http://b"), None);
    assert_eq!(
        absolute_media_url(Some("a.png"), "http://b"),
        Some("http://b/a.png".to_string())
    );
}

#[test]
fn url_path_escape_replaces_spaces() {
    assert_eq!(url_path_escape("my show x"), "my%20show%20x");
}

#[test]
fn mime_types_by_extension() {
    assert_eq!(mime_type_for("a.MP3"), "audio/mpeg");
    assert_eq!(mime_type_for("a.m4a"), "audio/mp4");
    assert_eq!(mime_type_for("a.mp4"), "video/mp4");
    assert_eq!(mime_type_for("a.aac"), "audio/aac");
    assert_eq!(mime_type_for("a.wav"), "audio/wav");
    assert_eq!(mime_type_for("a.aiff"), "audio/aiff");
    assert_eq!(mime_type_for("a.flac"), "audio/flac");
    assert_eq!(mime_type_for("a.ogg"), "audio/ogg");
    assert_eq!(mime_type_for("a.mkv"), "video/x-matroska");
    assert_eq!(mime_type_for("a.txt"), "application/octet-stream");
    assert_eq!(mime_type_for("noext"), "application/octet-stream");
}

#[test]
fn extensions_and_sizes() {
    assert_eq!(file_extension("a.B.PnG"), Ok("png".to_string()));
    assert_eq!(file_extension("a."), Err(StoreError::InvalidFileName));
    assert_eq!(file_extension("a"), Err(StoreError::InvalidFileName));
    assert_eq!(validate_extension("x.jpeg", &["jpg", "jpeg"]), Ok(()));
    assert_eq!(
        validate_extension("x.gif", &["jpg", "jpeg"]),
        Err(StoreError::UnsupportedFile)
    );
    assert_eq!(validate_size(5, 5), Ok(()));
    assert_eq!(validate_size(6, 5), Err(StoreError::FileTooLarge));
}

#[test]
fn text_helpers() {
    assert!(blank(" \t\n\u{a0}"));
    assert!(!blank(" a "));
    assert_eq!(fallback_title("  ", "Untitled"), "Untitled");
    assert_eq!(fallback_title(" x ", "Untitled"), " x ");
    assert_eq!(decimal_string(0), "0");
    assert_eq!(decimal_string(1234567890), "1234567890");
    assert_eq!(decimal_string(u64::MAX), u64::MAX.to_string());
}

#[test]
fn xml_writers() {
    assert_eq!(xml_escape("a<b>&\"'"), "a&lt;b&gt;&amp;&quot;&apos;");
    let mut xml = String::new();
    element(&mut xml, 2, "title", "A & B");
    assert_eq!(xml, "  <title>A &amp; B</title>\n");
    let mut xml = String::new();
    empty_element_attr(&mut xml, 1, "enclosure", &[("url", "u\"v"), ("length", "5")]);
    assert_eq!(xml, " <enclosure url=\"u&quot;v\" length=\"5\" />\n");
}

fn data_with_categories(primary: &str, others: &[&str]) -> PodcastData {
    PodcastData {
        title: "T".to_string(),
        description: String::new(),
        website: String::new(),
        feed_slug: "t".to_string(),
        cover: None,
        categories: others.iter().map(|c| c.to_string()).collect(),
        primary_category: primary.to_string(),
        language: String::new(),
    }
}

#[test]
fn categories_are_listed_once() {
    let podcast = PodcastEntry {
        id: "p".to_string(),
        data: data_with_categories("Arts", &["Arts", " ", "Music", "Music", "News"]),
        episodes: Vec::new(),
    };
    assert_eq!(podcast_categories(&podcast), vec!["Arts", "Music", "News"]);
    let podcast = PodcastEntry {
        id: "p".to_string(),
        data: data_with_categories("  ", &["B"]),
        episodes: Vec::new(),
    };
    assert_eq!(podcast_categories(&podcast), vec!["B"]);
}

#[test]
fn itunes_categories_nest_two_levels() {
    let mut xml = String::new();
    write_itunes_category(&mut xml, 4, "Arts");
    assert_eq!(xml, "    <itunes:category text=\"Arts\" />\n");
    let mut xml = String::new();
    write_itunes_category(&mut xml, 4, " Arts > Design > Extra ");
    assert_eq!(
        xml,
        "    <itunes:category text=\"Arts\">\n      <itunes:category text=\"Design\" />\n    </itunes:category>\n"
    );
    let mut xml = String::new();
    write_itunes_category(&mut xml, 4, " > > ");
    assert_eq!(xml, "");
}

#[test]
fn rss_feed_of_a_small_podcast() {
    let profile = Profile {
        name: "Ann".to_string(),
        email: String::new(),
    };
    let podcast = PodcastEntry {
        id: "p".to_string(),
        data: PodcastData {
            title: String::new(),
            description: "D".to_string(),
            website: " ".to_string(),
            feed_slug: "my show".to_string(),
            cover: Some("/resources/c.png".to_string()),
            categories: vec![],
            primary_category: "News".to_string(),
            language: "de".to_string(),
        },
        episodes: vec![
            Episode {
                id: "e1".to_string(),
                audio_file_name: Some("a.mp3".to_string()),
                audio_size: 42,
                title: "One".to_string(),
                notes: String::new(),
                episode_type: EpisodeType::Full,
                number: 1,
                cover: None,
            },
            Episode {
                id: "e2".to_string(),
                audio_file_name: None,
                audio_size: 0,
                title: "Two".to_string(),
                notes: String::new(),
                episode_type: EpisodeType::Full,
                number: 2,
                cover: None,
            },
        ],
    };
    let rss = build_rss_feed(&profile, &podcast, "http://h");
    let expected: String = [
        "<?xml version=\"1.0\" encoding=\"UTF-8\"?>\n",
        "<rss version=\"2.0\" xmlns:itunes=\"http://www.itunes.com/dtds/podcast-1.0.dtd\" xmlns:content=\"http://purl.org/rss/1.0/modules/content/\">\n",
        "  <channel>\n",
        "    <title>Untitled podcast</title>\n",
        "    <link>http://h/podcast/my%20show</link>\n",
        "    <description>D</description>\n",
        "    <language>de</language>\n",
        "    <generator>podcast_backend</generator>\n",
        "    <itunes:explicit>false</itunes:explicit>\n",
        "    <itunes:author>Ann</itunes:author>\n",
        "    <itunes:owner>\n",
        "      <itunes:name>Ann</itunes:name>\n",
        "    </itunes:owner>\n",
        "    <itunes:image href=\"http://h/resources/c.png\" />\n",
        "    <itunes:category text=\"News\" />\n",
        "    <item>\n",
        "      <title>One</title>\n",
        "      <description>One</description>\n",
        "      <content:encoded>One</content:encoded>\n",
        "      <guid>e1</guid>\n",
        "      <itunes:episode>1</itunes:episode>\n",
        "      <itunes:episodeType>full</itunes:episodeType>\n",
        "      <itunes:image href=\"http://h/resources/c.png\" />\n",
        "      <enclosure url=\"http://h/resources/Ann/Untitled/One/a.mp3\" length=\"42\" type=\"audio/mpeg\" />\n",
        "    </item>\n",
        "  </channel>\n",
        "</rss>\n",
    ]
    .concat();
    assert_eq!(rss, expected);
}

#[test]
fn escaped_xml_reads_back_as_the_text() {
    for text in ["a&<b>\"'", "&amp; is already escaped", "plain", "", "&&&;;"] {
        let escaped = xml_escape(text);
        assert!(!escaped.contains('<') && !escaped.contains('>'));
        let back = escaped
            .replace("&lt;", "<")
            .replace("&gt;", ">")
            .replace("&quot;", "\"")
            .replace("&apos;", "'")
            .replace("&amp;", "&");
        assert_eq!(back, text);
    }
    assert_eq!(xml_escape("a&<b>\"'"), "a&amp;&lt;b&gt;&quot;&apos;");
}
