use vstd::prelude::*;

verus! {

/// The name and e-mail address of the person who publishes the podcasts.
#[derive(Debug, PartialEq, Eq)]
pub struct Profile {
    pub name: String,
    pub email: String,
}

pub struct ProfileView {
    pub name: Seq<char>,
    pub email: Seq<char>,
}

impl View for Profile {
    type V = ProfileView;

    open spec fn view(&self) -> ProfileView {
        ProfileView { name: self.name@, email: self.email@ }
    }
}

impl Clone for Profile {
    fn clone(&self) -> (r: Self)
        ensures
            r@ == self@,
    {
        Profile { name: self.name.clone(), email: self.email.clone() }
    }
}

impl Default for Profile {
    fn default() -> (r: Self)
        ensures
            r@ == (ProfileView { name: Seq::empty(), email: Seq::empty() }),
    {
        Profile { name: String::new(), email: String::new() }
    }
}

/// The descriptive data of a podcast, as the publisher edits it.
#[derive(Debug, PartialEq, Eq)]
pub struct PodcastData {
    pub title: String,
    pub description: String,
    pub website: String,
    pub feed_slug: String,
    pub cover: Option<String>,
    pub categories: Vec<String>,
    pub primary_category: String,
    pub language: String,
}

pub struct PodcastDataView {
    pub title: Seq<char>,
    pub description: Seq<char>,
    pub website: Seq<char>,
    pub feed_slug: Seq<char>,
    pub cover: Option<Seq<char>>,
    pub categories: Seq<Seq<char>>,
    pub primary_category: Seq<char>,
    pub language: Seq<char>,
}

impl View for PodcastData {
    type V = PodcastDataView;

    open spec fn view(&self) -> PodcastDataView {
        PodcastDataView {
            title: self.title@,
            description: self.description@,
            website: self.website@,
            feed_slug: self.feed_slug@,
            cover: self.cover.deep_view(),
            categories: self.categories.deep_view(),
            primary_category: self.primary_category@,
            language: self.language@,
        }
    }
}

pub fn clone_text_option(value: &Option<String>) -> (r: Option<String>)
    ensures
        r.deep_view() == value.deep_view(),
{
    match value {
        Some(text) => Some(text.clone()),
        None => None,
    }
}

pub fn clone_text_list(values: &Vec<String>) -> (r: Vec<String>)
    ensures
        r.deep_view() == values.deep_view(),
{
    let mut r: Vec<String> = Vec::new();
    for i in 0..values.len()
        invariant
            r@.len() == i,
            forall|j: int| 0 <= j < i ==> #[trigger] r@[j]@ == values@[j]@,
    {
        r.push(values[i].clone());
    }
    assert(r.deep_view() =~= values.deep_view());
    r
}

impl Clone for PodcastData {
    fn clone(&self) -> (r: Self)
        ensures
            r@ == self@,
    {
        PodcastData {
            title: self.title.clone(),
            description: self.description.clone(),
            website: self.website.clone(),
            feed_slug: self.feed_slug.clone(),
            cover: clone_text_option(&self.cover),
            categories: clone_text_list(&self.categories),
            primary_category: self.primary_category.clone(),
            language: self.language.clone(),
        }
    }
}

impl Default for PodcastData {
    /// Empty data, with English as the language.
    fn default() -> (r: Self)
        ensures
            r@ == (PodcastDataView {
                title: Seq::empty(),
                description: Seq::empty(),
                website: Seq::empty(),
                feed_slug: Seq::empty(),
                cover: None,
                categories: Seq::empty(),
                primary_category: Seq::empty(),
                language: "en"@,
            }),
    {
        let categories: Vec<String> = Vec::new();
        assert(categories.deep_view() =~= Seq::<Seq<char>>::empty());
        PodcastData {
            title: String::new(),
            description: String::new(),
            website: String::new(),
            feed_slug: String::new(),
            cover: None,
            categories,
            primary_category: String::new(),
            language: String::from_str("en"),
        }
    }
}

/// The kind of an episode; every episode of this library is a full episode.
#[derive(Debug, Clone, Copy, PartialEq, Eq, Structural)]
pub enum EpisodeType {
    Full,
}

/// One episode of a podcast.
#[derive(Debug, PartialEq, Eq)]
pub struct Episode {
    pub id: String,
    pub audio_file_name: Option<String>,
    pub audio_size: u64,
    pub title: String,
    pub notes: String,
    pub episode_type: EpisodeType,
    pub number: u32,
    pub cover: Option<String>,
}

pub struct EpisodeView {
    pub id: Seq<char>,
    pub audio_file_name: Option<Seq<char>>,
    pub audio_size: u64,
    pub title: Seq<char>,
    pub notes: Seq<char>,
    pub episode_type: EpisodeType,
    pub number: u32,
    pub cover: Option<Seq<char>>,
}

impl View for Episode {
    type V = EpisodeView;

    open spec fn view(&self) -> EpisodeView {
        EpisodeView {
            id: self.id@,
            audio_file_name: self.audio_file_name.deep_view(),
            audio_size: self.audio_size,
            title: self.title@,
            notes: self.notes@,
            episode_type: self.episode_type,
            number: self.number,
            cover: self.cover.deep_view(),
        }
    }
}

impl Clone for Episode {
    fn clone(&self) -> (r: Self)
        ensures
            r@ == self@,
    {
        Episode {
            id: self.id.clone(),
            audio_file_name: clone_text_option(&self.audio_file_name),
            audio_size: self.audio_size,
            title: self.title.clone(),
            notes: self.notes.clone(),
            episode_type: self.episode_type,
            number: self.number,
            cover: clone_text_option(&self.cover),
        }
    }
}

/// The views of a list of episodes.
pub open spec fn episodes_view(episodes: Seq<Episode>) -> Seq<EpisodeView> {
    episodes.map_values(|e: Episode| e@)
}

/// An identifier as the library makes them: a random (version 4) UUID in its hyphenated
/// lower-case form, such as `67e55044-10b1-426f-9247-bb680e5fe0c8`.
pub open spec fn is_random_id(id: Seq<char>) -> bool {
    &&& id.len() == 36
    &&& forall|i: int|
        0 <= i < 36 ==> if i == 8 || i == 13 || i == 18 || i == 23 {
            #[trigger] id[i] == '-'
        } else {
            ('0' <= id[i] && id[i] <= '9') || ('a' <= id[i] && id[i] <= 'f')
        }
    &&& id[14] == '4'
    &&& (id[19] == '8' || id[19] == '9' || id[19] == 'a' || id[19] == 'b')
}

/// Calls `uuid::Uuid::new_v4` and formats the identifier with its `Display` impl, which writes
/// the hyphenated lower-case form. Claimed: the text has that form, with the version digit `4`
/// and one of the variant digits `8`, `9`, `a`, `b` that `new_v4` sets. The other digits are
/// random and nothing else is claimed of them.
#[verifier::external_body]
pub(crate) fn new_id() -> (r: String)
    ensures
        is_random_id(r@),
{
    uuid::Uuid::new_v4().to_string()
}

/// The episode that `Episode::empty(number)` makes, given the identifier it drew.
pub open spec fn empty_episode_view(id: Seq<char>, number: u32) -> EpisodeView {
    EpisodeView {
        id,
        audio_file_name: None,
        audio_size: 0,
        title: Seq::empty(),
        notes: Seq::empty(),
        episode_type: EpisodeType::Full,
        number,
        cover: None,
    }
}

impl Episode {
    /// A new episode with the given number, a fresh identifier and nothing else filled in.
    pub fn empty(number: u32) -> (r: Self)
        ensures
            r@ == empty_episode_view(r@.id, number),
            is_random_id(r@.id),
    {
        Episode {
            id: new_id(),
            audio_file_name: None,
            audio_size: 0,
            title: String::new(),
            notes: String::new(),
            episode_type: EpisodeType::Full,
            number,
            cover: None,
        }
    }
}

/// A podcast with its identifier and its episodes.
#[derive(Debug, PartialEq, Eq)]
pub struct PodcastEntry {
    pub id: String,
    pub data: PodcastData,
    pub episodes: Vec<Episode>,
}

pub struct PodcastEntryView {
    pub id: Seq<char>,
    pub data: PodcastDataView,
    pub episodes: Seq<EpisodeView>,
}

impl View for PodcastEntry {
    type V = PodcastEntryView;

    open spec fn view(&self) -> PodcastEntryView {
        PodcastEntryView { id: self.id@, data: self.data@, episodes: episodes_view(self.episodes@) }
    }
}

pub fn clone_episodes(episodes: &Vec<Episode>) -> (r: Vec<Episode>)
    ensures
        episodes_view(r@) == episodes_view(episodes@),
{
    let mut r: Vec<Episode> = Vec::new();
    for i in 0..episodes.len()
        invariant
            r@.len() == i,
            forall|j: int| 0 <= j < i ==> #[trigger] r@[j]@ == episodes@[j]@,
    {
        r.push(episodes[i].clone());
    }
    assert(episodes_view(r@) =~= episodes_view(episodes@));
    r
}

impl Clone for PodcastEntry {
    fn clone(&self) -> (r: Self)
        ensures
            r@ == self@,
    {
        PodcastEntry {
            id: self.id.clone(),
            data: self.data.clone(),
            episodes: clone_episodes(&self.episodes),
        }
    }
}

impl PodcastEntry {
    /// A new podcast with a fresh identifier, the given data and one empty episode numbered 1.
    pub fn new(data: PodcastData) -> (r: Self)
        ensures
            r@.data == data@,
            is_random_id(r@.id),
            r@.episodes.len() == 1,
            r@.episodes[0] == empty_episode_view(r@.episodes[0].id, 1),
            is_random_id(r@.episodes[0].id),
    {
        let id = new_id();
        let mut episodes: Vec<Episode> = Vec::new();
        episodes.push(Episode::empty(1));
        PodcastEntry { id, data, episodes }
    }
}

/// The views of a list of podcasts.
pub open spec fn podcasts_view(podcasts: Seq<PodcastEntry>) -> Seq<PodcastEntryView> {
    podcasts.map_values(|p: PodcastEntry| p@)
}

pub fn clone_podcasts(podcasts: &Vec<PodcastEntry>) -> (r: Vec<PodcastEntry>)
    ensures
        podcasts_view(r@) == podcasts_view(podcasts@),
{
    let mut r: Vec<PodcastEntry> = Vec::new();
    for i in 0..podcasts.len()
        invariant
            r@.len() == i,
            forall|j: int| 0 <= j < i ==> #[trigger] r@[j]@ == podcasts@[j]@,
    {
        r.push(podcasts[i].clone());
    }
    assert(podcasts_view(r@) =~= podcasts_view(podcasts@));
    r
}

/// Everything the library keeps: a revision counter, the publisher's profile and the podcasts.
#[derive(Debug, PartialEq, Eq)]
pub struct AppDocument {
    pub revision: u64,
    pub profile: Profile,
    pub podcasts: Vec<PodcastEntry>,
}

pub struct AppDocumentView {
    pub revision: u64,
    pub profile: ProfileView,
    pub podcasts: Seq<PodcastEntryView>,
}

impl View for AppDocument {
    type V = AppDocumentView;

    open spec fn view(&self) -> AppDocumentView {
        AppDocumentView {
            revision: self.revision,
            profile: self.profile@,
            podcasts: podcasts_view(self.podcasts@),
        }
    }
}

impl Clone for AppDocument {
    fn clone(&self) -> (r: Self)
        ensures
            r@ == self@,
    {
        AppDocument {
            revision: self.revision,
            profile: self.profile.clone(),
            podcasts: clone_podcasts(&self.podcasts),
        }
    }
}

impl Default for AppDocument {
    /// Revision 0, an empty profile and no podcasts.
    fn default() -> (r: Self)
        ensures
            r@.revision == 0,
            r@.profile == (ProfileView { name: Seq::empty(), email: Seq::empty() }),
            r@.podcasts == Seq::<PodcastEntryView>::empty(),
    {
        let podcasts: Vec<PodcastEntry> = Vec::new();
        assert(podcasts_view(podcasts@) =~= Seq::<PodcastEntryView>::empty());
        AppDocument { revision: 0, profile: Profile::default(), podcasts }
    }
}

/// The body of a request that creates a podcast.
#[derive(Debug, PartialEq, Eq)]
pub struct CreatePodcastRequest {
    pub data: PodcastData,
}

/// The body of a request that creates an episode; without an episode an empty one is made.
#[derive(Debug, PartialEq, Eq)]
pub struct CreateEpisodeRequest {
    pub episode: Option<Episode>,
}

/// A file that a client uploaded: its name as the client gave it, its bytes and its size.
#[derive(Debug)]
pub struct UploadFile {
    pub file_name: String,
    pub bytes: Vec<u8>,
    pub size: u64,
}

} // verus!
