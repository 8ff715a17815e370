//! Blob listing entries and the rule that keeps only stored blobs.
//!
//! A blob listing response may carry, besides actual blobs, prefix entries
//! that stand for virtual folders. Those are categorically not blobs and
//! are excluded from what an enumeration yields.

use vstd::prelude::*;

verus! {

/// One entry of a blob listing response: a stored blob, or a prefix entry
/// standing for a virtual folder.
pub enum BlobEntry {
    Blob(String),
    Prefix(String),
}

/// The names of the stored blobs among the entries, in order. Prefix
/// entries contribute nothing.
pub open spec fn leaf_names_spec(entries: Seq<BlobEntry>) -> Seq<Seq<char>>
    decreases entries.len(),
{
    if entries.len() == 0 {
        Seq::empty()
    } else {
        match entries[0] {
            BlobEntry::Blob(n) => seq![n@] + leaf_names_spec(entries.drop_first()),
            BlobEntry::Prefix(_) => leaf_names_spec(entries.drop_first()),
        }
    }
}

/// How many of the entries are stored blobs.
pub open spec fn blob_count(entries: Seq<BlobEntry>) -> nat
    decreases entries.len(),
{
    if entries.len() == 0 {
        0
    } else {
        (if entries[0] is Blob {
            1nat
        } else {
            0nat
        }) + blob_count(entries.drop_first())
    }
}

/// Whether entry j is a stored blob named `name`.
pub open spec fn names_a_blob(entries: Seq<BlobEntry>, j: int, name: Seq<char>) -> bool {
    &&& 0 <= j < entries.len()
    &&& entries[j] matches BlobEntry::Blob(n) && n@ == name
}

/// Whether some stored-blob entry carries this name.
pub open spec fn yielded_from_a_blob(entries: Seq<BlobEntry>, name: Seq<char>) -> bool {
    exists|j: int| names_a_blob(entries, j, name)
}

/// Keeps only the stored blobs' names, in order; every prefix entry is
/// dropped.
pub fn leaf_names(entries: Vec<BlobEntry>) -> (names: Vec<String>)
    ensures
        names@.map_values(|s: String| s@) == leaf_names_spec(entries@),
{
    let ghost all = entries@;
    let mut names: Vec<String> = Vec::new();
    let mut rest = entries;
    while rest.len() > 0
        invariant
            leaf_names_spec(all) == names@.map_values(|s: String| s@) + leaf_names_spec(rest@),
        decreases rest@.len(),
    {
        let ghost rest_before = rest@;
        let ghost done_before = names@.map_values(|s: String| s@);
        let e = rest.remove(0);
        proof {
            assert(rest@ =~= rest_before.drop_first());
        }
        match e {
            BlobEntry::Blob(n) => {
                names.push(n);
                proof {
                    assert(names@.map_values(|s: String| s@) =~= done_before + seq![e->Blob_0@]);
                    assert(done_before + (seq![e->Blob_0@] + leaf_names_spec(rest@)) =~= (
                    done_before + seq![e->Blob_0@]) + leaf_names_spec(rest@));
                }
            },
            BlobEntry::Prefix(_) => {},
        }
    }
    proof {
        assert(leaf_names_spec(rest@) == Seq::<Seq<char>>::empty());
        assert(names@.map_values(|s: String| s@) + leaf_names_spec(rest@) =~= names@.map_values(
            |s: String| s@,
        ));
    }
    names
}

/// Filtering: an enumeration of blob entries yields stored blobs only.
/// There are exactly as many yielded names as stored-blob entries, and
/// each yielded name is the name of some stored-blob entry — never of a
/// prefix entry.
pub proof fn lemma_prefixes_excluded(entries: Seq<BlobEntry>)
    ensures
        leaf_names_spec(entries).len() == blob_count(entries),
        forall|k: int|
            0 <= k < leaf_names_spec(entries).len() ==> yielded_from_a_blob(
                entries,
                #[trigger] leaf_names_spec(entries)[k],
            ),
    decreases entries.len(),
{
    if entries.len() == 0 {
    } else {
        let rest = entries.drop_first();
        lemma_prefixes_excluded(rest);
        match entries[0] {
            BlobEntry::Blob(n) => {
                assert(leaf_names_spec(entries) == seq![n@] + leaf_names_spec(rest));
                assert forall|k: int|
                    0 <= k < leaf_names_spec(entries).len() implies yielded_from_a_blob(
                    entries,
                    #[trigger] leaf_names_spec(entries)[k],
                ) by {
                    if k == 0 {
                        assert(leaf_names_spec(entries)[0] == n@);
                        assert(names_a_blob(entries, 0, leaf_names_spec(entries)[0]));
                    } else {
                        assert(leaf_names_spec(entries)[k] == leaf_names_spec(rest)[k - 1]);
                        assert(yielded_from_a_blob(rest, leaf_names_spec(rest)[k - 1]));
                        let j2 = choose|j2: int|
                            #[trigger] names_a_blob(rest, j2, leaf_names_spec(rest)[k - 1]);
                        assert(entries[j2 + 1] == rest[j2]);
                        assert(names_a_blob(entries, j2 + 1, leaf_names_spec(entries)[k]));
                    }
                }
            },
            BlobEntry::Prefix(_) => {
                assert(leaf_names_spec(entries) == leaf_names_spec(rest));
                assert forall|k: int|
                    0 <= k < leaf_names_spec(entries).len() implies yielded_from_a_blob(
                    entries,
                    #[trigger] leaf_names_spec(entries)[k],
                ) by {
                    assert(yielded_from_a_blob(rest, leaf_names_spec(rest)[k]));
                    let j2 = choose|j2: int|
                        #[trigger] names_a_blob(rest, j2, leaf_names_spec(rest)[k]);
                    assert(entries[j2 + 1] == rest[j2]);
                    assert(names_a_blob(entries, j2 + 1, leaf_names_spec(entries)[k]));
                }
            },
        }
    }
}

} // verus!
