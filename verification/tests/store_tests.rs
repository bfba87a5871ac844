use podcast_backend::error::StoreError;
use podcast_backend::model::{AppDocument, Episode, EpisodeType, PodcastData, Profile};
use podcast_backend::model::UploadFile;
use podcast_backend::store::Store;
use podcast_backend::uploads::{is_file_field, upload_file_name};

fn podcast_data(title: &str) -> PodcastData {
    PodcastData {
        title: title.to_string(),
        description: "A good show".to_string(),
        website: "https://example.com".to_string(),
        feed_slug: "good-show".to_string(),
        cover: None,
        categories: vec!["Arts".to_string()],
        primary_category: "Arts".to_string(),
        language: "en".to_string(),
    }
}

fn upload(name: &str, bytes: &[u8]) -> UploadFile {
    UploadFile {
        file_name: name.to_string(),
        bytes: bytes.to_vec(),
        size: bytes.len() as u64,
    }
}

fn empty_store(base: &str) -> Store {
    Store::new(AppDocument::default(), base)
}

#[test]
fn store_persists_profile_podcast_and_episode_changes() {
    let mut store = empty_store("http://127.0.0.1:8787");
    store.save_profile(Profile {
        name: "Q".to_string(),
        email: "q@example.com".to_string(),
    });
    let state = store.state();
    assert_eq!(state.revision, 1);

    let podcast = store.create_podcast(podcast_data("First"));
    let (saved, _, _) = store
        .save_podcast(&podcast.id, podcast_data("Updated"))
        .unwrap();
    assert_eq!(saved.data.title, "Updated");

    let episode = store.create_episode(&podcast.id, None).unwrap();
    let episode_id = episode.id.clone();
    let (updated_episode, _, _) = store
        .save_episode(
            &podcast.id,
            &episode_id,
            Episode {
                title: "Episode One".to_string(),
                ..episode
            },
        )
        .unwrap();
    assert_eq!(updated_episode.title, "Episode One");

    let loaded = store.state();
    assert_eq!(loaded.profile.email, "q@example.com");
    assert_eq!(loaded.podcasts[0].data.title, "Updated");
    assert_eq!(loaded.podcasts[0].episodes[1].title, "Episode One");
}

#[test]
fn deleting_episode_renumbers_remaining_episodes() {
    let mut store = empty_store("http://127.0.0.1:8787");
    let podcast = store.create_podcast(podcast_data("Show"));
    let episode = store.create_episode(&podcast.id, None).unwrap();

    let (podcast, _) = store.delete_episode(&podcast.id, &episode.id).unwrap();

    assert_eq!(podcast.episodes.len(), 1);
    assert_eq!(podcast.episodes[0].number, 1);
}

#[test]
fn upload_files_use_resource_tree_and_episode_delete_removes_files() {
    let mut store = empty_store("https://example.test");
    store.save_profile(Profile {
        name: "Alice Smith".to_string(),
        email: "alice@example.com".to_string(),
    });
    let podcast = store.create_podcast(podcast_data("API Show"));
    let (episode, _, _) = store
        .save_episode(
            &podcast.id,
            &podcast.episodes[0].id,
            Episode {
                title: "Launch Episode".to_string(),
                ..podcast.episodes[0].clone()
            },
        )
        .unwrap();

    let audio = store
        .plan_episode_audio(&podcast.id, &episode.id, "hello world.mp3", 5)
        .unwrap();
    assert_eq!(audio.dirs, vec!["Alice_Smith", "API_Show", "Launch_Episode"]);
    assert_eq!(audio.file_name, "hello_world.mp3");
    let episode = store
        .save_episode_audio(&podcast.id, &episode.id, &upload("hello world.mp3", b"audio"))
        .unwrap();

    let cover = store
        .plan_episode_cover(&podcast.id, &episode.id, "cover.png", 5)
        .unwrap();
    assert_eq!(cover.dirs, vec!["Alice_Smith", "API_Show", "Launch_Episode"]);
    assert_eq!(cover.file_name, "cover.png");
    let episode = store
        .save_episode_cover(&podcast.id, &episode.id, &upload("cover.png", b"image"))
        .unwrap();
    assert_eq!(
        episode.cover,
        Some("/resources/Alice_Smith/API_Show/Launch_Episode/cover.png".to_string())
    );

    let rss = store.rss_by_feed_slug("good-show").unwrap();
    assert!(rss.contains("<rss version=\"2.0\""));
    assert!(rss.contains("xmlns:itunes=\"http://www.itunes.com/dtds/podcast-1.0.dtd\""));
    assert!(rss.contains("<title>API Show</title>"));
    assert!(rss.contains("<itunes:episode>1</itunes:episode>"));
    assert!(rss.contains("type=\"audio/mpeg\""));
    assert!(rss.contains(
        "url=\"https://example.test/resources/Alice_Smith/API_Show/Launch_Episode/hello_world.mp3\""
    ));

    let (_, removed) = store.delete_episode(&podcast.id, &episode.id).unwrap();
    assert_eq!(removed, vec!["Alice_Smith", "API_Show", "Launch_Episode"]);
}

#[test]
fn base_url_loses_trailing_slashes() {
    let store = empty_store("https://example.test//");
    assert_eq!(store.public_base_url, "https://example.test");
}

#[test]
fn revision_counts_each_change() {
    let mut store = empty_store("http://x");
    let podcast = store.create_podcast(podcast_data("A"));
    assert_eq!(store.document.revision, 1);
    store.create_episode(&podcast.id, None).unwrap();
    assert_eq!(store.document.revision, 2);
    assert_eq!(
        store.create_episode("missing", None),
        Err(StoreError::NotFound("podcast"))
    );
    assert_eq!(store.document.revision, 2);
}

#[test]
fn new_podcast_has_one_empty_episode() {
    let mut store = empty_store("http://x");
    let podcast = store.create_podcast(podcast_data("A"));
    assert_eq!(podcast.id.len(), 36);
    assert_eq!(podcast.episodes.len(), 1);
    assert_eq!(podcast.episodes[0].number, 1);
    assert_eq!(podcast.episodes[0].episode_type, EpisodeType::Full);
    assert_eq!(podcast.episodes[0].audio_file_name, None);
    assert_ne!(podcast.id, podcast.episodes[0].id);
    for id in [&podcast.id, &podcast.episodes[0].id] {
        let chars: Vec<char> = id.chars().collect();
        assert_eq!(chars[14], '4');
        assert!(matches!(chars[19], '8' | '9' | 'a' | 'b'));
        assert_eq!(chars[8], '-');
        assert_eq!(chars[23], '-');
    }
}

#[test]
fn created_episode_keeps_given_number_and_renumbers() {
    let mut store = empty_store("http://x");
    let podcast = store.create_podcast(podcast_data("A"));
    let given = Episode {
        id: "   ".to_string(),
        audio_file_name: None,
        audio_size: 0,
        title: "Intro".to_string(),
        notes: String::new(),
        episode_type: EpisodeType::Full,
        number: 0,
        cover: None,
    };
    let created = store.create_episode(&podcast.id, Some(given)).unwrap();
    assert_eq!(created.id.len(), 36);
    assert_eq!(created.number, 2);
    assert_eq!(created.title, "Intro");

    let early = Episode {
        id: "early".to_string(),
        title: "Early".to_string(),
        number: 1,
        ..created.clone()
    };
    let placed = store.create_episode(&podcast.id, Some(early)).unwrap();
    // Numbers 1 (the first episode), 2 (Intro) and 1 (Early) sort stably: first, Early, Intro.
    assert_eq!(placed.number, 2);
    let numbers: Vec<u32> = store.document.podcasts[0]
        .episodes
        .iter()
        .map(|e| e.number)
        .collect();
    assert_eq!(numbers, vec![1, 2, 3]);
    assert_eq!(store.document.podcasts[0].episodes[1].title, "Early");
    assert_eq!(store.document.podcasts[0].episodes[2].title, "Intro");
}

#[test]
fn missing_podcast_and_episode_errors() {
    let mut store = empty_store("http://x");
    let podcast = store.create_podcast(podcast_data("A"));
    assert_eq!(
        store.delete_podcast("nope").unwrap_err(),
        StoreError::NotFound("podcast")
    );
    assert_eq!(
        store.delete_episode(&podcast.id, "nope").unwrap_err(),
        StoreError::NotFound("episode")
    );
    assert_eq!(
        store.rss_by_feed_slug("none").unwrap_err(),
        StoreError::NotFound("podcast feed")
    );
    assert_eq!(
        store
            .save_episode_cover(&podcast.id, "nope", &upload("c.png", b"x"))
            .unwrap_err(),
        StoreError::NotFound("episode")
    );
}

#[test]
fn upload_checks_refuse_bad_files() {
    let mut store = empty_store("http://x");
    let podcast = store.create_podcast(podcast_data("A"));
    assert_eq!(
        store.plan_podcast_cover(&podcast.id, "cover", 10).unwrap_err(),
        StoreError::InvalidFileName
    );
    assert_eq!(
        store.plan_podcast_cover(&podcast.id, "cover.", 10).unwrap_err(),
        StoreError::InvalidFileName
    );
    assert_eq!(
        store.plan_podcast_cover(&podcast.id, "cover.gif", 10).unwrap_err(),
        StoreError::UnsupportedFile
    );
    assert_eq!(
        store
            .plan_podcast_cover(&podcast.id, "cover.PNG", 6 * 1024 * 1024)
            .unwrap_err(),
        StoreError::FileTooLarge
    );
    assert_eq!(
        store.plan_podcast_cover("nope", "cover.png", 10).unwrap_err(),
        StoreError::NotFound("podcast")
    );
    let target = store.plan_podcast_cover(&podcast.id, "Cover.JPG", 10).unwrap();
    assert_eq!(target.file_name, "cover.jpg");
    assert_eq!(target.public_url, "/resources/Untitled/A/cover.jpg");
    let saved = store
        .save_podcast_cover(&podcast.id, &upload("Cover.JPG", b"image"))
        .unwrap();
    assert_eq!(saved.data.cover, Some("/resources/Untitled/A/cover.jpg".to_string()));
}

#[test]
fn renaming_profile_moves_cover_urls() {
    let mut store = empty_store("http://x");
    let mut data = podcast_data("My Show");
    data.cover = Some("https://cdn.example/img/art.png".to_string());
    store.create_podcast(data);
    let (old_dir, new_dir) = store.save_profile(Profile {
        name: "Bob B".to_string(),
        email: String::new(),
    });
    assert_eq!(old_dir, vec!["Untitled"]);
    assert_eq!(new_dir, vec!["Bob_B"]);
    assert_eq!(
        store.document.podcasts[0].data.cover,
        Some("/resources/Bob_B/My_Show/art.png".to_string())
    );
}

#[test]
fn deleting_podcast_reports_its_directory() {
    let mut store = empty_store("http://x");
    let podcast = store.create_podcast(podcast_data("Gone Show"));
    let dir = store.delete_podcast(&podcast.id).unwrap();
    assert_eq!(dir, vec!["Untitled", "Gone_Show"]);
    assert!(store.document.podcasts.is_empty());
    assert_eq!(store.document.revision, 2);
}

#[test]
fn error_messages_and_statuses() {
    assert_eq!(StoreError::NotFound("episode").message(), "episode not found");
    assert_eq!(StoreError::NotFound("episode").status_code(), 404);
    assert_eq!(StoreError::FileTooLarge.message(), "file is too large");
    assert_eq!(StoreError::MissingUpload.status_code(), 400);
    assert_eq!(StoreError::InvalidFileName.message(), "invalid file name");
    assert_eq!(StoreError::UnsupportedFile.message(), "unsupported file extension");
    assert_eq!(StoreError::MissingUpload.message(), "upload file is missing");
}

#[test]
fn upload_chunks_count_toward_the_limit() {
    assert!(is_file_field(Some("file")));
    assert!(!is_file_field(Some("other")));
    assert!(!is_file_field(None));
    assert_eq!(upload_file_name(Some("a.mp3")), Ok("a.mp3".to_string()));
    assert_eq!(upload_file_name(None), Err(StoreError::InvalidFileName));

    let mut file = UploadFile::new("a.mp3".to_string());
    assert_eq!(file.add_chunk(b"abc", 5), Ok(()));
    assert_eq!(file.add_chunk(b"de", 5), Ok(()));
    assert_eq!(file.bytes, b"abcde".to_vec());
    assert_eq!(file.add_chunk(b"f", 5), Err(StoreError::FileTooLarge));
    assert_eq!(file.size, 6);
    assert_eq!(file.bytes, b"abcde".to_vec());
}

#[test]
fn saved_podcast_is_found_again() {
    let mut store = empty_store("http://x");
    let podcast = store.create_podcast(podcast_data("Old"));
    store.save_podcast(&podcast.id, podcast_data("New")).unwrap();
    let state = store.state();
    let found = state.podcasts.iter().find(|p| p.id == podcast.id).unwrap();
    assert_eq!(found.data.title, "New");
    assert_eq!(found.episodes.len(), 1);
}

#[test]
fn cover_uploads_are_checked_before_anything_is_recorded() {
    let mut store = empty_store("http://x");
    let podcast = store.create_podcast(podcast_data("A"));
    let episode_id = podcast.episodes[0].id.clone();
    let revision = store.document.revision;
    assert_eq!(
        store.save_podcast_cover(&podcast.id, &upload("art.gif", b"x")).unwrap_err(),
        StoreError::UnsupportedFile
    );
    assert_eq!(
        store.save_podcast_cover(&podcast.id, &upload("art", b"x")).unwrap_err(),
        StoreError::InvalidFileName
    );
    let big = UploadFile {
        file_name: "art.png".to_string(),
        bytes: Vec::new(),
        size: 5 * 1024 * 1024 + 1,
    };
    assert_eq!(
        store.save_podcast_cover(&podcast.id, &big).unwrap_err(),
        StoreError::FileTooLarge
    );
    assert_eq!(
        store.save_podcast_cover("nope", &upload("art.png", b"x")).unwrap_err(),
        StoreError::NotFound("podcast")
    );
    assert_eq!(
        store
            .save_episode_cover(&podcast.id, &episode_id, &upload("c.bmp", b"x"))
            .unwrap_err(),
        StoreError::UnsupportedFile
    );
    assert_eq!(
        store
            .save_episode_audio(&podcast.id, &episode_id, &upload("talk.txt", b"x"))
            .unwrap_err(),
        StoreError::UnsupportedFile
    );
    assert_eq!(store.document.revision, revision);
    assert_eq!(store.document.podcasts[0].data.cover, None);

    let limit = UploadFile {
        file_name: "Art.PNG".to_string(),
        bytes: Vec::new(),
        size: 5 * 1024 * 1024,
    };
    let saved = store.save_podcast_cover(&podcast.id, &limit).unwrap();
    assert_eq!(saved.data.cover, Some("/resources/Untitled/A/cover.png".to_string()));
    assert_eq!(store.document.revision, revision + 1);
}

#[test]
fn every_operation_keeps_episodes_numbered_in_order() {
    let mut store = empty_store("http://x");
    let a = store.create_podcast(podcast_data("A"));
    let b = store.create_podcast(podcast_data("B"));
    let first = store.create_episode(&a.id, None).unwrap();
    store.create_episode(&a.id, None).unwrap();
    store
        .save_episode(
            &a.id,
            &first.id,
            Episode {
                number: 9,
                ..first.clone()
            },
        )
        .unwrap();
    store
        .save_episode_cover(&a.id, &first.id, &upload("c.png", b"x"))
        .unwrap();
    store
        .save_episode_audio(&a.id, &first.id, &upload("e.mp3", b"x"))
        .unwrap();
    store.delete_episode(&b.id, &b.episodes[0].id).unwrap();
    store.save_profile(Profile {
        name: "N".to_string(),
        email: String::new(),
    });
    store.delete_podcast(&b.id).unwrap();
    for podcast in &store.document.podcasts {
        for (i, episode) in podcast.episodes.iter().enumerate() {
            assert_eq!(episode.number as usize, i + 1);
        }
    }
    assert_eq!(store.document.podcasts[0].episodes.len(), 3);
    assert_eq!(store.document.podcasts[0].episodes[2].id, first.id);
}

#[test]
fn moving_resource_urls_twice_changes_nothing() {
    let mut store = empty_store("http://x");
    let mut data = podcast_data("My Show");
    data.cover = Some("https://cdn.example/img/art work.png".to_string());
    let podcast = store.create_podcast(data);
    store
        .save_episode_cover(&podcast.id, &podcast.episodes[0].id, &upload("c.jpeg", b"x"))
        .unwrap();
    let profile = Profile {
        name: "Bob B".to_string(),
        email: String::new(),
    };
    store.save_profile(profile.clone());
    let once = store.document.podcasts.clone();
    store.save_profile(profile);
    assert_eq!(store.document.podcasts, once);
    assert_eq!(
        once[0].data.cover,
        Some("/resources/Bob_B/My_Show/art_work.png".to_string())
    );
    assert_eq!(
        once[0].episodes[0].cover,
        Some("/resources/Bob_B/My_Show/Untitled/cover.jpeg".to_string())
    );
}
