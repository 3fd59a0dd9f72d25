//! The server catalog: typed server descriptors and selection.
//!
//! The embed page lists servers per audio kind (sub, dub, raw); each
//! descriptor carries a lowercased name and two numeric ids. Selection
//! scans a list in order and takes the first descriptor whose name
//! equals the requested server's name, falling back to the default
//! server when none was requested.

use vstd::prelude::*;
use vstd::string::*;

use crate::utils::{
    chars_to_string, parse_u32_or_zero, spec_id_value, spec_trim, str_eq, to_chars, trim_chars,
};

verus! {

/// One server entry scraped from the episode's server list.
#[derive(Debug, Clone)]
pub struct Server {
    pub server_name: String,
    pub server_id: u32,
    pub data_id: u32,
}

/// The servers of one episode, by audio kind.
#[derive(Debug)]
pub struct ServerInfo {
    pub episode_no: u32,
    pub sub: Vec<Server>,
    pub dub: Vec<Server>,
    pub raw: Vec<Server>,
}

/// The known embed servers.
#[derive(Debug, PartialEq, Eq)]
pub enum AnimeServer {
    Vidstreaming,
    Megacloud,
    Streamsb,
    Streamtape,
    Vidcloud,
}

/// The canonical name of each server.
pub open spec fn spec_server_name(v: AnimeServer) -> Seq<char> {
    match v {
        AnimeServer::Vidstreaming => "vidsrc"@,
        AnimeServer::Megacloud => "megacloud"@,
        AnimeServer::Streamsb => "streamsb"@,
        AnimeServer::Streamtape => "streamtape"@,
        AnimeServer::Vidcloud => "vidcloud"@,
    }
}

/// The server a name denotes; an unknown name denotes the default
/// server.
pub open spec fn spec_server_of_name(s: Seq<char>) -> AnimeServer {
    if s == "vidsrc"@ {
        AnimeServer::Vidstreaming
    } else if s == "megacloud"@ {
        AnimeServer::Megacloud
    } else if s == "streamsb"@ {
        AnimeServer::Streamsb
    } else if s == "streamtape"@ {
        AnimeServer::Streamtape
    } else if s == "vidcloud"@ {
        AnimeServer::Vidcloud
    } else {
        AnimeServer::Vidstreaming
    }
}

impl AnimeServer {
    /// The server a name denotes; an unknown name denotes the default
    /// server.
    pub fn from_str(s: &str) -> (r: Self)
        ensures
            r == spec_server_of_name(s@),
    {
        if str_eq(s, "vidsrc") {
            AnimeServer::Vidstreaming
        } else if str_eq(s, "megacloud") {
            AnimeServer::Megacloud
        } else if str_eq(s, "streamsb") {
            AnimeServer::Streamsb
        } else if str_eq(s, "streamtape") {
            AnimeServer::Streamtape
        } else if str_eq(s, "vidcloud") {
            AnimeServer::Vidcloud
        } else {
            AnimeServer::Vidstreaming
        }
    }

    /// The canonical name of this server.
    pub fn as_str(&self) -> (s: &str)
        ensures
            s@ == spec_server_name(*self),
    {
        match self {
            AnimeServer::Vidstreaming => "vidsrc",
            AnimeServer::Megacloud => "megacloud",
            AnimeServer::Streamsb => "streamsb",
            AnimeServer::Streamtape => "streamtape",
            AnimeServer::Vidcloud => "vidcloud",
        }
    }
}

/// The audio kinds of an episode.
#[derive(Debug, PartialEq, Eq)]
pub enum EpisodeType {
    Sub,
    Dub,
    Raw,
}

/// The canonical name of each audio kind.
pub open spec fn spec_episode_type_name(v: EpisodeType) -> Seq<char> {
    match v {
        EpisodeType::Sub => "sub"@,
        EpisodeType::Dub => "dub"@,
        EpisodeType::Raw => "raw"@,
    }
}

/// The audio kind a name denotes; an unknown name denotes subtitles.
pub open spec fn spec_episode_type_of_name(s: Seq<char>) -> EpisodeType {
    if s == "sub"@ {
        EpisodeType::Sub
    } else if s == "dub"@ {
        EpisodeType::Dub
    } else if s == "raw"@ {
        EpisodeType::Raw
    } else {
        EpisodeType::Sub
    }
}

impl EpisodeType {
    /// The audio kind a name denotes; an unknown name denotes subtitles.
    pub fn from_str(s: &str) -> (r: Self)
        ensures
            r == spec_episode_type_of_name(s@),
    {
        if str_eq(s, "sub") {
            EpisodeType::Sub
        } else if str_eq(s, "dub") {
            EpisodeType::Dub
        } else if str_eq(s, "raw") {
            EpisodeType::Raw
        } else {
            EpisodeType::Sub
        }
    }

    /// The canonical name of this audio kind.
    pub fn as_str(&self) -> (s: &str)
        ensures
            s@ == spec_episode_type_name(*self),
    {
        match self {
            EpisodeType::Sub => "sub",
            EpisodeType::Dub => "dub",
            EpisodeType::Raw => "raw",
        }
    }
}

/// What `str::to_lowercase` yields: the result depends on the
/// characters alone.
pub uninterp spec fn lowercase_of(s: Seq<char>) -> Seq<char>;

/// Relies on `str::to_lowercase`: Unicode lowercasing, a function of
/// the characters alone.
#[verifier::external_body]
fn lowercase(s: &str) -> (r: String)
    ensures
        r@ == lowercase_of(s@),
{
    s.to_lowercase()
}

/// Builds one server descriptor out of its scraped fields: the name is
/// lowercased and trimmed for case-insensitive matching downstream,
/// and a missing or malformed id attribute reads as zero.
pub fn server_from_fields(name: &str, server_id: Option<&str>, data_id: Option<&str>) -> (r:
    Server)
    ensures
        r.server_name@ == spec_trim(lowercase_of(name@)),
        (match server_id {
            Some(s) => r.server_id == spec_id_value(s@),
            None => r.server_id == 0,
        }),
        (match data_id {
            Some(s) => r.data_id == spec_id_value(s@),
            None => r.data_id == 0,
        }),
{
    let low = lowercase(name);
    let trimmed = trim_chars(&to_chars(low.as_str()));
    let server_name = chars_to_string(&trimmed);
    let server_id: u32 = match server_id {
        Some(s) => parse_u32_or_zero(s),
        None => 0,
    };
    let data_id: u32 = match data_id {
        Some(s) => parse_u32_or_zero(s),
        None => 0,
    };
    Server { server_name, server_id, data_id }
}

/// The requested server, with the default standing in for none.
pub open spec fn spec_requested_server(o: Option<AnimeServer>) -> AnimeServer {
    match o {
        Some(s) => s,
        None => AnimeServer::Vidstreaming,
    }
}

/// The least index `>= i` of a descriptor whose name is `name`.
pub open spec fn spec_first_server_match(servers: Seq<Server>, name: Seq<char>, i: int) -> Option<
    int,
>
    decreases servers.len() - i,
{
    if i < 0 || i >= servers.len() {
        None
    } else if servers[i].server_name@ == name {
        Some(i)
    } else {
        spec_first_server_match(servers, name, i + 1)
    }
}

proof fn lemma_first_server_some(servers: Seq<Server>, name: Seq<char>, k: int, i: int)
    requires
        0 <= k <= i < servers.len(),
        servers[i].server_name@ == name,
        forall|j: int| k <= j < i ==> servers[j].server_name@ != name,
    ensures
        spec_first_server_match(servers, name, k) == Some(i),
    decreases i - k,
{
    if k < i {
        lemma_first_server_some(servers, name, k + 1, i);
    }
}

proof fn lemma_first_server_none(servers: Seq<Server>, name: Seq<char>, k: int)
    requires
        0 <= k,
        forall|j: int| k <= j < servers.len() ==> servers[j].server_name@ != name,
    ensures
        spec_first_server_match(servers, name, k) is None,
    decreases servers.len() - k,
{
    if k < servers.len() {
        lemma_first_server_none(servers, name, k + 1);
    }
}

/// Fills `server_id` and `data_id` from the first descriptor matching
/// the requested server's name; both stay as they were when no
/// descriptor matches.
pub fn update_server_id(
    server_id: &mut u32,
    data_id: &mut u32,
    servers: Vec<Server>,
    anime_server: Option<AnimeServer>,
)
    ensures
        ({
            let name = spec_server_name(spec_requested_server(anime_server));
            match spec_first_server_match(servers@, name, 0) {
                Some(k) => *final(server_id) == servers@[k].server_id && *final(data_id)
                    == servers@[k].data_id,
                None => *final(server_id) == *old(server_id) && *final(data_id) == *old(data_id),
            }
        }),
{
    let requested = match anime_server {
        Some(s) => s,
        None => AnimeServer::Vidstreaming,
    };
    let target = requested.as_str();
    let n = servers.len();
    let mut i: usize = 0;
    while i < n
        invariant
            n == servers@.len(),
            i <= n,
            target@ == spec_server_name(spec_requested_server(anime_server)),
            *server_id == *old(server_id),
            *data_id == *old(data_id),
            forall|j: int| 0 <= j < i ==> servers@[j].server_name@ != target@,
        decreases n - i,
    {
        if str_eq(servers[i].server_name.as_str(), target) {
            *server_id = servers[i].server_id;
            *data_id = servers[i].data_id;
            proof {
                lemma_first_server_some(servers@, target@, 0, i as int);
            }
            return ;
        }
        i = i + 1;
    }
    proof {
        lemma_first_server_none(servers@, target@, 0);
    }
}

} // verus!
