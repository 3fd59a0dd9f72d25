//! Plain data records for scraped anime listings.
//!
//! These are the typed results the surrounding scraping layer fills in;
//! the pipeline itself only carries them through.

use vstd::prelude::*;

verus! {

#[derive(Debug)]
pub struct MinimalAnime {
    pub id: String,
    pub title: String,
    pub image: String,
}

#[derive(Debug)]
pub struct Anime {
    pub id: String,
    pub title: String,
    pub subs: u32,
    pub dubs: u32,
    pub eps: u32,
    pub duration: String,
    pub rating: String,
    pub image: String,
}

#[derive(Debug)]
pub struct SpotlightAnime {
    pub id: String,
    pub title: String,
    pub subs: u32,
    pub dubs: u32,
    pub eps: u32,
    pub duration: String,
    pub rank: u32,
    pub image: String,
    pub description: String,
    pub category: String,
    pub released_day: String,
    pub quality: String,
}

#[derive(Debug)]
pub struct Top10Anime {
    pub id: String,
    pub title: String,
    pub subs: u32,
    pub dubs: u32,
    pub eps: u32,
    pub rank: u32,
    pub image: String,
}

#[derive(Debug)]
pub struct FeaturedAnime {
    pub top_airing_animes: Vec<MinimalAnime>,
    pub most_popular_animes: Vec<MinimalAnime>,
    pub most_favorite_animes: Vec<MinimalAnime>,
    pub latest_completed_animes: Vec<MinimalAnime>,
}

#[derive(Debug)]
pub struct Top10PeriodRankedAnime {
    pub day: Vec<Top10Anime>,
    pub week: Vec<Top10Anime>,
    pub month: Vec<Top10Anime>,
}

} // verus!
