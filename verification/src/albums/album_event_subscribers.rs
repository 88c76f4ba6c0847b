//! The crawls that parsed charts and artist pages call for.
use crate::crawler::priority_queue::QueuePushParameters;
use crate::file_name::FileName;
use crate::priority::{get_crawl_priority, spec_crawl_priority};
use crate::text::push_str;
use vstd::prelude::*;

verus! {

/// The correlation id that ties a crawl to the page that asked for it:
/// the kind of request, `:` and the page name.
pub open spec fn spec_correlation(kind: Seq<char>, source: Seq<char>) -> Seq<char> {
    kind + ":"@ + source
}

fn correlation(kind: &str, source: &FileName) -> (res: String)
    ensures
        res@ == spec_correlation(kind@, source@),
{
    let mut s = String::new();
    push_str(&mut s, kind);
    push_str(&mut s, ":");
    push_str(&mut s, source.0.as_str());
    proof {
        assert(s@ =~= spec_correlation(kind@, source@));
    }
    s
}

/// The crawl of an album listed on a parsed page: at the priority that the
/// page's own correlation id calls for, correlated with the page, with no
/// deduplication key or metadata of its own.
pub open spec fn is_listed_album_crawl(
    res: QueuePushParameters,
    album: FileName,
    kind: Seq<char>,
    source: FileName,
    correlation_id: Option<String>,
) -> bool {
    &&& res.file_name@ == album@
    &&& res.priority == Some(
        spec_crawl_priority(
            match correlation_id {
                Some(c) => Some(c@),
                None => None,
            },
        ),
    )
    &&& res.deduplication_key is None
    &&& match res.correlation_id {
        Some(c) => c@ == spec_correlation(kind, source@),
        None => false,
    }
    &&& res.metadata is None
}

fn listed_album_crawl(album: FileName, kind: &str, source: &FileName, correlation_id: Option<String>) -> (res:
    QueuePushParameters)
    ensures
        is_listed_album_crawl(res, album, kind@, *source, correlation_id),
{
    let priority = get_crawl_priority(correlation_id);
    QueuePushParameters {
        file_name: album,
        priority: Some(priority),
        deduplication_key: None,
        correlation_id: Some(correlation(kind, source)),
        metadata: None,
    }
}

/// The crawl of an album that a parsed chart lists.
pub fn chart_album_crawl(album: FileName, chart: &FileName, correlation_id: Option<String>) -> (res:
    QueuePushParameters)
    ensures
        is_listed_album_crawl(res, album, "crawl_chart_albums"@, *chart, correlation_id),
{
    listed_album_crawl(album, "crawl_chart_albums", chart, correlation_id)
}

/// The crawl of an album that a parsed artist page lists.
pub fn artist_album_crawl(album: FileName, artist: &FileName, correlation_id: Option<String>) -> (res:
    QueuePushParameters)
    ensures
        is_listed_album_crawl(res, album, "crawl_artist_albums"@, *artist, correlation_id),
{
    listed_album_crawl(album, "crawl_artist_albums", artist, correlation_id)
}

} // verus!
