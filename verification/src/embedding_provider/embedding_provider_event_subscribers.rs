//! Which embeddings the saved albums call for, and under which job ids.
use crate::artists::artist_read_model::ArtistOverview;
use crate::file_name::FileName;
use crate::text::push_str;
use vstd::prelude::*;

verus! {

/// An artist's embedding is worth computing when it has an album of its
/// own or is credited on at least five albums.
pub open spec fn spec_is_embeddable_artist(overview: ArtistOverview) -> bool {
    overview.album_summary.album_count >= 1 || overview.credited_album_summary.album_count >= 5
}

/// Whether an artist's embedding is worth computing.
pub fn is_embeddable_artist(overview: &ArtistOverview) -> (res: bool)
    ensures
        res == spec_is_embeddable_artist(*overview),
{
    overview.album_summary.album_count >= 1 || overview.credited_album_summary.album_count >= 5
}

/// The overviews of `overviews` whose artist's embedding is worth
/// computing, in order.
pub open spec fn embeddable_of(overviews: Seq<ArtistOverview>) -> Seq<ArtistOverview>
    decreases overviews.len(),
{
    if overviews.len() == 0 {
        Seq::empty()
    } else {
        (if spec_is_embeddable_artist(overviews[0]) {
            seq![overviews[0]]
        } else {
            Seq::empty()
        }) + embeddable_of(overviews.skip(1))
    }
}

/// Keeps the overviews of the artists whose embeddings are worth
/// computing, in order.
pub fn select_embeddable_artists(overviews: Vec<ArtistOverview>) -> (res: Vec<ArtistOverview>)
    ensures
        res@ == embeddable_of(overviews@),
{
    let ghost all = overviews@;
    let mut rest = overviews;
    let mut res: Vec<ArtistOverview> = Vec::new();
    while rest.len() > 0
        invariant
            res@ + embeddable_of(rest@) == embeddable_of(all),
        decreases rest@.len(),
    {
        let ghost before = rest@;
        let o = rest.remove(0);
        proof {
            assert(rest@ =~= before.skip(1));
            assert(before[0] == o);
        }
        if is_embeddable_artist(&o) {
            res.push(o);
            proof {
                assert(embeddable_of(before) == seq![o] + embeddable_of(rest@));
                assert(res@ + embeddable_of(rest@) =~= (res@.drop_last() + seq![o]) + embeddable_of(rest@));
                assert(res@.drop_last() + (seq![o] + embeddable_of(rest@)) =~= res@ + embeddable_of(rest@));
            }
        } else {
            proof {
                assert(embeddable_of(before) =~= embeddable_of(rest@));
            }
        }
    }
    proof {
        assert(embeddable_of(rest@) =~= Seq::<ArtistOverview>::empty());
        assert(res@ + Seq::<ArtistOverview>::empty() =~= res@);
    }
    res
}

/// The id of the job that embeds an album with a provider.
pub fn album_embedding_job_id(provider_name: &str, file_name: &FileName) -> (res: String)
    ensures
        res@ == "generate_album_embedding:"@ + provider_name@ + ":"@ + file_name@,
{
    let mut s = String::new();
    push_str(&mut s, "generate_album_embedding:");
    push_str(&mut s, provider_name);
    push_str(&mut s, ":");
    push_str(&mut s, file_name.0.as_str());
    proof {
        assert(s@ =~= "generate_album_embedding:"@ + provider_name@ + ":"@ + file_name@);
    }
    s
}

/// The id of the job that embeds an artist with a provider.
pub fn artist_embedding_job_id(provider_name: &str, file_name: &FileName) -> (res: String)
    ensures
        res@ == "generate_artist_embedding:"@ + provider_name@ + ":"@ + file_name@,
{
    let mut s = String::new();
    push_str(&mut s, "generate_artist_embedding:");
    push_str(&mut s, provider_name);
    push_str(&mut s, ":");
    push_str(&mut s, file_name.0.as_str());
    proof {
        assert(s@ =~= "generate_artist_embedding:"@ + provider_name@ + ":"@ + file_name@);
    }
    s
}

/// The id of the job that recomputes an album's embedding when its stored
/// embeddings are migrated.
pub fn migration_embedding_job_id(provider_name: &str, file_name: &FileName) -> (res: String)
    ensures
        res@ == "migrate_album_embedding:"@ + provider_name@ + ":"@ + file_name@,
{
    let mut s = String::new();
    push_str(&mut s, "migrate_album_embedding:");
    push_str(&mut s, provider_name);
    push_str(&mut s, ":");
    push_str(&mut s, file_name.0.as_str());
    proof {
        assert(s@ =~= "migrate_album_embedding:"@ + provider_name@ + ":"@ + file_name@);
    }
    s
}

} // verus!
