//! Writing the sampled messages to CSV files, one file per neighborhood.

use vstd::prelude::*;

use crate::config::utils::string_views;
use crate::edge::routing::{assigned, assigned_topic, lemma_assigned_at, option_views, pair_views};
use crate::text;

verus! {

/// The possible strategies to write messages to CSV files.
#[derive(Debug, Clone, Copy, PartialEq, Eq, Structural)]
pub enum SendStrategy {
    /// Writes the messages of each neighborhood to a file of their own.
    NeighborhoodWise,
}

/// The CSV headers of the written files: those of the input file, then the
/// geohash and the neighborhood that are added to each record.
pub fn out_headers(headers: &Vec<String>) -> (r: Vec<String>)
    ensures
        string_views(r@) == string_views(headers@) + seq!["geohash"@, "neighborhood"@],
{
    let mut r: Vec<String> = Vec::new();
    for i in 0..headers.len()
        invariant
            string_views(r@) == string_views(headers@.take(i as int)),
    {
        let ghost prev = r@;
        r.push(headers[i].clone());
        assert(string_views(r@) =~= string_views(prev).push(headers@[i as int]@));
        assert(headers@.take(i + 1) =~= headers@.take(i as int).push(headers@[i as int]));
        assert(string_views(r@) =~= string_views(headers@.take(i + 1)));
    }
    assert(headers@.take(headers.len() as int) =~= headers@);
    let ghost before = r@;
    r.push(text::owned("geohash"));
    r.push(text::owned("neighborhood"));
    assert(string_views(r@) =~= string_views(before) + seq!["geohash"@, "neighborhood"@]);
    r
}

/// The file a message is written to: the one of its neighborhood, or the
/// file for the messages of no known neighborhood.
pub open spec fn file_of(
    neighborhood: Option<Seq<char>>,
    files: Seq<(Seq<char>, Seq<char>)>,
    not_found: Seq<char>,
) -> Seq<char> {
    match neighborhood {
        Some(n) => match assigned(files, n) {
            Some(f) => f,
            None => not_found,
        },
        None => not_found,
    }
}

/// The file each message is written to, given the neighborhood of each
/// message and the file of each neighborhood.
pub fn files_of_messages(
    neighborhoods: &Vec<Option<String>>,
    neighborhood_files: &Vec<(String, String)>,
    not_found_file: &str,
) -> (r: Vec<String>)
    ensures
        r.len() == neighborhoods.len(),
        forall|i: int|
            0 <= i < r.len() ==> #[trigger] r[i]@ == file_of(
                option_views(neighborhoods@)[i],
                pair_views(neighborhood_files@),
                not_found_file@,
            ),
{
    let mut r: Vec<String> = Vec::new();
    for i in 0..neighborhoods.len()
        invariant
            r.len() == i,
            forall|k: int|
                0 <= k < i ==> #[trigger] r[k]@ == file_of(
                    option_views(neighborhoods@)[k],
                    pair_views(neighborhood_files@),
                    not_found_file@,
                ),
    {
        let file = match &neighborhoods[i] {
            Some(n) => match assigned_topic(neighborhood_files, n) {
                Some(f) => f.clone(),
                None => text::owned(not_found_file),
            },
            None => text::owned(not_found_file),
        };
        r.push(file);
    }
    r
}

/// No topic is assigned to a key that no pair holds.
proof fn lemma_assigned_absent(pairs: Seq<(Seq<char>, Seq<char>)>, key: Seq<char>)
    requires
        forall|k: int| 0 <= k < pairs.len() ==> (#[trigger] pairs[k]).0 != key,
    ensures
        assigned(pairs, key) is None,
    decreases pairs.len(),
{
    if pairs.len() > 0 {
        let rest = pairs.drop_first();
        assert(pairs[0].0 != key);
        assert forall|k: int| 0 <= k < rest.len() implies (#[trigger] rest[k]).0 != key by {
            assert(rest[k] == pairs[k + 1]);
        }
        lemma_assigned_absent(rest, key);
    }
}

/// With each neighborhood name paired with its file (the names all
/// different), a message of the neighborhood at position `i` is written to
/// the file at position `i`, the name taken as it is; a message of no
/// neighborhood, or of a neighborhood that has no file, is written to the
/// not-found file.
pub proof fn lemma_files_by_neighborhood(
    names: Seq<Seq<char>>,
    files: Seq<Seq<char>>,
    pairs: Seq<(Seq<char>, Seq<char>)>,
    not_found: Seq<char>,
)
    requires
        names.len() == files.len(),
        pairs.len() == names.len(),
        forall|a: int, b: int|
            #![trigger names[a], names[b]]
            0 <= a < b < names.len() ==> names[a] != names[b],
        forall|k: int| 0 <= k < pairs.len() ==> #[trigger] pairs[k] == (names[k], files[k]),
    ensures
        forall|i: int|
            0 <= i < names.len() ==> #[trigger] file_of(Some(names[i]), pairs, not_found)
                == files[i],
        file_of(None, pairs, not_found) == not_found,
        forall|n: Seq<char>|
            !names.contains(n) ==> #[trigger] file_of(Some(n), pairs, not_found) == not_found,
{
    assert forall|a: int, b: int|
        #![trigger pairs[a], pairs[b]]
        0 <= a < b < pairs.len() implies pairs[a].0 != pairs[b].0 by {
        assert(pairs[a].0 == names[a]);
        assert(pairs[b].0 == names[b]);
    }
    assert forall|i: int| 0 <= i < names.len() implies #[trigger] file_of(
        Some(names[i]),
        pairs,
        not_found,
    ) == files[i] by {
        lemma_assigned_at(pairs, i);
        assert(pairs[i] == (names[i], files[i]));
    }
    assert forall|n: Seq<char>| !names.contains(n) implies #[trigger] file_of(
        Some(n),
        pairs,
        not_found,
    ) == not_found by {
        assert forall|k: int| 0 <= k < pairs.len() implies (#[trigger] pairs[k]).0 != n by {
            assert(pairs[k].0 == names[k]);
        }
        lemma_assigned_absent(pairs, n);
    }
}

} // verus!
