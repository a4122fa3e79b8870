//! The sort engine: each sortable column induces a total preorder on
//! tracks, and the library's track order is rearranged by a stable sort
//! under that preorder.

use vstd::prelude::*;
use vstd::utf8::encode_utf8;
use crate::column::ColumnKind;
use crate::order::bytes_le;
use crate::order::lemma_bytes_le_antisymmetric;
use crate::order::lemma_bytes_le_total;
use crate::order::lemma_bytes_le_transitive;
use crate::order::string_le;
use crate::track::Track;
use crate::track::TrackId;

verus! {

/// What a column compares: a primary and a secondary text key (as UTF-8
/// bytes) and a numeric tie-break, ordered lexicographically.
pub struct SortKey {
    pub primary: Seq<u8>,
    pub secondary: Seq<u8>,
    pub numeric: u32,
}

/// Lexicographic "less than or equal" on sort keys.
pub open spec fn sk_le(a: SortKey, b: SortKey) -> bool {
    if a.primary != b.primary {
        bytes_le(a.primary, b.primary)
    } else if a.secondary != b.secondary {
        bytes_le(a.secondary, b.secondary)
    } else {
        a.numeric <= b.numeric
    }
}

/// Strict form of `sk_le`.
pub open spec fn sk_lt(a: SortKey, b: SortKey) -> bool {
    !sk_le(b, a)
}

/// `sk_le` is total.
pub proof fn lemma_sk_le_total(a: SortKey, b: SortKey)
    ensures
        sk_le(a, b) || sk_le(b, a),
{
    lemma_bytes_le_total(a.primary, b.primary);
    lemma_bytes_le_total(a.secondary, b.secondary);
}

/// `sk_le` is antisymmetric: keys that compare equal both ways are equal.
pub proof fn lemma_sk_le_antisymmetric(a: SortKey, b: SortKey)
    requires
        sk_le(a, b),
        sk_le(b, a),
    ensures
        a == b,
{
    if a.primary != b.primary {
        lemma_bytes_le_antisymmetric(a.primary, b.primary);
    } else if a.secondary != b.secondary {
        lemma_bytes_le_antisymmetric(a.secondary, b.secondary);
    }
}

/// `sk_le` is transitive.
pub proof fn lemma_sk_le_transitive(a: SortKey, b: SortKey, c: SortKey)
    requires
        sk_le(a, b),
        sk_le(b, c),
    ensures
        sk_le(a, c),
{
    if a.primary != b.primary && b.primary != c.primary {
        lemma_bytes_le_transitive(a.primary, b.primary, c.primary);
        if a.primary == c.primary {
            lemma_bytes_le_antisymmetric(b.primary, c.primary);
        }
    } else if a.primary == b.primary && b.primary == c.primary {
        if a.secondary != b.secondary && b.secondary != c.secondary {
            lemma_bytes_le_transitive(a.secondary, b.secondary, c.secondary);
            if a.secondary == c.secondary {
                lemma_bytes_le_antisymmetric(b.secondary, c.secondary);
            }
        }
    }
}

/// The key a given column sorts a track by. `Playing` has no sortable
/// content; its key is the same for every track.
pub open spec fn sort_key(kind: ColumnKind, t: Track) -> SortKey {
    match kind {
        ColumnKind::Playing => SortKey {
            primary: Seq::empty(),
            secondary: Seq::empty(),
            numeric: 0,
        },
        ColumnKind::Title => SortKey {
            primary: encode_utf8(t.title@),
            secondary: Seq::empty(),
            numeric: 0,
        },
        ColumnKind::Artist => SortKey {
            primary: encode_utf8(t.artist@),
            secondary: encode_utf8(t.album@),
            numeric: t.track_number,
        },
        ColumnKind::Album => SortKey {
            primary: encode_utf8(t.album@),
            secondary: encode_utf8(t.artist@),
            numeric: t.track_number,
        },
        ColumnKind::Duration => SortKey {
            primary: Seq::empty(),
            secondary: Seq::empty(),
            numeric: t.duration,
        },
        ColumnKind::TrackNumber => SortKey {
            primary: Seq::empty(),
            secondary: Seq::empty(),
            numeric: t.track_number,
        },
        ColumnKind::Kind => SortKey {
            primary: encode_utf8(t.kind@),
            secondary: Seq::empty(),
            numeric: 0,
        },
        ColumnKind::DateAdded => SortKey {
            primary: encode_utf8(t.date_added@),
            secondary: Seq::empty(),
            numeric: 0,
        },
    }
}

/// The first catalog position holding a track with the given identity, or
/// a negative value when there is none.
pub open spec fn first_with_id(tracks: Seq<Track>, id: Seq<char>) -> int
    decreases tracks.len(),
{
    if tracks.len() == 0 {
        -1
    } else if tracks[0].id@ == id {
        0
    } else {
        let r = first_with_id(tracks.drop_first(), id);
        if r < 0 {
            -1
        } else {
            r + 1
        }
    }
}

/// Whether some catalog track carries the given identity.
pub open spec fn has_id(tracks: Seq<Track>, id: Seq<char>) -> bool {
    first_with_id(tracks, id) >= 0
}

/// The catalog track with the given identity (the first, were the
/// identity ever duplicated).
pub open spec fn track_of(tracks: Seq<Track>, id: Seq<char>) -> Track {
    tracks[first_with_id(tracks, id)]
}

/// What `first_with_id` finds: the least position with a matching
/// identity, if any position matches.
pub proof fn lemma_first_with_id(tracks: Seq<Track>, id: Seq<char>)
    ensures
        has_id(tracks, id) ==> {
            let r = first_with_id(tracks, id);
            0 <= r < tracks.len() && tracks[r].id@ == id && forall|j: int|
                0 <= j < r ==> tracks[j].id@ != id
        },
        !has_id(tracks, id) ==> forall|j: int| 0 <= j < tracks.len() ==> tracks[j].id@ != id,
    decreases tracks.len(),
{
    if tracks.len() != 0 && tracks[0].id@ != id {
        lemma_first_with_id(tracks.drop_first(), id);
        assert forall|j: int| 1 <= j < tracks.len() implies tracks[j] == tracks.drop_first()[j
            - 1] by {}
    }
}

/// The key a given column sorts the track with the given identity by.
pub open spec fn id_key(tracks: Seq<Track>, kind: ColumnKind, id: Seq<char>) -> SortKey {
    sort_key(kind, track_of(tracks, id))
}

/// Finds the track with the given identity, scanning the catalog in order.
pub fn find_track<'a>(tracks: &'a Vec<Track>, id: &TrackId) -> (r: Option<&'a Track>)
    ensures
        match r {
            Some(t) => has_id(tracks@, id@) && *t == track_of(tracks@, id@),
            None => !has_id(tracks@, id@),
        },
{
    let n = tracks.len();
    let mut i: usize = 0;
    while i < n
        invariant
            n == tracks@.len(),
            0 <= i <= n,
            forall|j: int| 0 <= j < i ==> tracks@[j].id@ != id@,
        decreases n - i,
    {
        if tracks[i].id.0 == id.0 {
            proof {
                lemma_first_with_id(tracks@, id@);
            }
            return Some(&tracks[i]);
        }
        i += 1;
    }
    proof {
        lemma_first_with_id(tracks@, id@);
    }
    None
}

/// Compares the primary strings, then the secondary strings, then the
/// numeric tie-break.
fn le_by_keys(
    a_primary: &String,
    b_primary: &String,
    a_secondary: &String,
    b_secondary: &String,
    a_numeric: u32,
    b_numeric: u32,
) -> (r: bool)
    ensures
        r == sk_le(
            SortKey {
                primary: encode_utf8(a_primary@),
                secondary: encode_utf8(a_secondary@),
                numeric: a_numeric,
            },
            SortKey {
                primary: encode_utf8(b_primary@),
                secondary: encode_utf8(b_secondary@),
                numeric: b_numeric,
            },
        ),
{
    let p_le = string_le(a_primary, b_primary);
    let p_ge = string_le(b_primary, a_primary);
    proof {
        lemma_bytes_le_total(encode_utf8(a_primary@), encode_utf8(b_primary@));
        if p_le && p_ge {
            lemma_bytes_le_antisymmetric(encode_utf8(a_primary@), encode_utf8(b_primary@));
        }
    }
    if p_le && p_ge {
        let s_le = string_le(a_secondary, b_secondary);
        let s_ge = string_le(b_secondary, a_secondary);
        proof {
            lemma_bytes_le_total(encode_utf8(a_secondary@), encode_utf8(b_secondary@));
            if s_le && s_ge {
                lemma_bytes_le_antisymmetric(encode_utf8(a_secondary@), encode_utf8(b_secondary@));
            }
        }
        if s_le && s_ge {
            a_numeric <= b_numeric
        } else {
            s_le
        }
    } else {
        p_le
    }
}

/// Compares two tracks under a column's key.
pub fn track_le(kind: ColumnKind, a: &Track, b: &Track) -> (r: bool)
    ensures
        r == sk_le(sort_key(kind, *a), sort_key(kind, *b)),
{
    match kind {
        ColumnKind::Playing => true,
        ColumnKind::Title => {
            let p_le = string_le(&a.title, &b.title);
            proof {
                lemma_bytes_le_total(encode_utf8(a.title@), encode_utf8(b.title@));
            }
            p_le
        },
        ColumnKind::Artist => le_by_keys(
            &a.artist,
            &b.artist,
            &a.album,
            &b.album,
            a.track_number,
            b.track_number,
        ),
        ColumnKind::Album => le_by_keys(
            &a.album,
            &b.album,
            &a.artist,
            &b.artist,
            a.track_number,
            b.track_number,
        ),
        ColumnKind::Duration => a.duration <= b.duration,
        ColumnKind::TrackNumber => a.track_number <= b.track_number,
        ColumnKind::Kind => {
            let p_le = string_le(&a.kind, &b.kind);
            proof {
                lemma_bytes_le_total(encode_utf8(a.kind@), encode_utf8(b.kind@));
            }
            p_le
        },
        ColumnKind::DateAdded => {
            let p_le = string_le(&a.date_added, &b.date_added);
            proof {
                lemma_bytes_le_total(encode_utf8(a.date_added@), encode_utf8(b.date_added@));
            }
            p_le
        },
    }
}

/// Compares the tracks carrying two identities under a column's key.
fn id_le(tracks: &Vec<Track>, kind: ColumnKind, a: &TrackId, b: &TrackId) -> (r: bool)
    requires
        has_id(tracks@, a@),
        has_id(tracks@, b@),
    ensures
        r == sk_le(id_key(tracks@, kind, a@), id_key(tracks@, kind, b@)),
{
    let ta = find_track(tracks, a).unwrap();
    let tb = find_track(tracks, b).unwrap();
    track_le(kind, ta, tb)
}

/// The stable insertion of an identity into an already sorted order: it
/// comes to rest behind every entry whose key is not strictly greater.
pub open spec fn stable_insert(
    tracks: Seq<Track>,
    kind: ColumnKind,
    s: Seq<TrackId>,
    x: TrackId,
) -> Seq<TrackId>
    decreases s.len(),
{
    if s.len() == 0 {
        seq![x]
    } else if sk_lt(id_key(tracks, kind, x@), id_key(tracks, kind, s.last()@)) {
        stable_insert(tracks, kind, s.drop_last(), x).push(s.last())
    } else {
        s.push(x)
    }
}

/// The stable sort of an order under a column's key: entries are taken in
/// turn and each comes to rest behind its equals.
pub open spec fn stable_sort(tracks: Seq<Track>, kind: ColumnKind, s: Seq<TrackId>) -> Seq<
    TrackId,
>
    decreases s.len(),
{
    if s.len() == 0 {
        Seq::empty()
    } else {
        stable_insert(tracks, kind, stable_sort(tracks, kind, s.drop_last()), s.last())
    }
}

/// Sortedness of an order under a column's key.
pub open spec fn sorted_by(tracks: Seq<Track>, kind: ColumnKind, s: Seq<TrackId>) -> bool {
    forall|i: int, j: int|
        0 <= i < j < s.len() ==> sk_le(
            id_key(tracks, kind, s[i]@),
            id_key(tracks, kind, s[j]@),
        )
}

/// A stable insertion is an insertion: at any position below which the new
/// entry's key is not strictly less and above which it is, the result is
/// the order with the entry placed there.
proof fn lemma_stable_insert_at(
    tracks: Seq<Track>,
    kind: ColumnKind,
    s: Seq<TrackId>,
    x: TrackId,
    j: int,
)
    requires
        0 <= j <= s.len(),
        forall|p: int|
            j <= p < s.len() ==> sk_lt(id_key(tracks, kind, x@), id_key(tracks, kind, s[p]@)),
        j > 0 ==> !sk_lt(id_key(tracks, kind, x@), id_key(tracks, kind, s[j - 1]@)),
    ensures
        stable_insert(tracks, kind, s, x) == s.insert(j, x),
    decreases s.len(),
{
    if s.len() == 0 {
        assert(s.insert(0, x) =~= seq![x]);
    } else if sk_lt(id_key(tracks, kind, x@), id_key(tracks, kind, s.last()@)) {
        assert(j < s.len());
        let dl = s.drop_last();
        assert(forall|p: int|
            j <= p < dl.len() ==> sk_lt(id_key(tracks, kind, x@), id_key(tracks, kind, dl[p]@)));
        if j > 0 {
            assert(dl[j - 1] == s[j - 1]);
        }
        lemma_stable_insert_at(tracks, kind, dl, x, j);
        assert(dl.insert(j, x).push(s.last()) =~= s.insert(j, x));
    } else {
        assert(j == s.len()) by {
            if j < s.len() {
                assert(sk_lt(id_key(tracks, kind, x@), id_key(tracks, kind, s[s.len() - 1]@)));
            }
        }
        assert(s.push(x) =~= s.insert(s.len() as int, x));
    }
}

/// Inserting adds the entry to the order's contents and keeps the rest.
pub proof fn lemma_stable_insert_multiset(
    tracks: Seq<Track>,
    kind: ColumnKind,
    s: Seq<TrackId>,
    x: TrackId,
)
    ensures
        stable_insert(tracks, kind, s, x).to_multiset() == s.to_multiset().insert(x),
    decreases s.len(),
{
    broadcast use vstd::seq_lib::to_multiset_build;

    if s.len() == 0 {
        assert(seq![x] =~= Seq::<TrackId>::empty().push(x));
        assert(s =~= Seq::<TrackId>::empty());
    } else if sk_lt(id_key(tracks, kind, x@), id_key(tracks, kind, s.last()@)) {
        let dl = s.drop_last();
        lemma_stable_insert_multiset(tracks, kind, dl, x);
        assert(s =~= dl.push(s.last()));
        assert(dl.to_multiset().insert(x).insert(s.last()) =~= dl.to_multiset().insert(
            s.last(),
        ).insert(x));
    }
}

/// LAW: a sort neither gains nor loses a track — the sorted order holds
/// exactly the identities of the order it came from.
pub proof fn lemma_stable_sort_permutes(tracks: Seq<Track>, kind: ColumnKind, s: Seq<TrackId>)
    ensures
        stable_sort(tracks, kind, s).to_multiset() == s.to_multiset(),
        stable_sort(tracks, kind, s).len() == s.len(),
    decreases s.len(),
{
    broadcast use vstd::seq_lib::group_to_multiset_ensures;

    if s.len() != 0 {
        let dl = s.drop_last();
        lemma_stable_sort_permutes(tracks, kind, dl);
        lemma_stable_insert_multiset(tracks, kind, stable_sort(tracks, kind, dl), s.last());
        assert(s =~= dl.push(s.last()));
    }
    let r = stable_sort(tracks, kind, s);
    assert(r.to_multiset().len() == r.len());
    assert(s.to_multiset().len() == s.len());
}

/// An entry of a stable insertion is the new entry or one of the old.
proof fn lemma_stable_insert_contains(
    tracks: Seq<Track>,
    kind: ColumnKind,
    s: Seq<TrackId>,
    x: TrackId,
    i: int,
)
    requires
        0 <= i < stable_insert(tracks, kind, s, x).len(),
    ensures
        stable_insert(tracks, kind, s, x)[i] == x || exists|p: int|
            0 <= p < s.len() && s[p] == stable_insert(tracks, kind, s, x)[i],
{
    broadcast use vstd::seq_lib::group_to_multiset_ensures;

    lemma_stable_insert_multiset(tracks, kind, s, x);
    let r = stable_insert(tracks, kind, s, x);
    assert(r.contains(r[i]));
    assert(r.to_multiset().count(r[i]) > 0);
    if r[i] != x {
        assert(s.to_multiset().count(r[i]) > 0);
        assert(s.contains(r[i]));
    }
}

/// Inserting into a sorted order keeps it sorted.
proof fn lemma_stable_insert_sorted(
    tracks: Seq<Track>,
    kind: ColumnKind,
    s: Seq<TrackId>,
    x: TrackId,
)
    requires
        sorted_by(tracks, kind, s),
    ensures
        sorted_by(tracks, kind, stable_insert(tracks, kind, s, x)),
    decreases s.len(),
{
    let r = stable_insert(tracks, kind, s, x);
    let xk = id_key(tracks, kind, x@);
    if s.len() == 0 {
    } else if sk_lt(xk, id_key(tracks, kind, s.last()@)) {
        let dl = s.drop_last();
        assert(sorted_by(tracks, kind, dl)) by {
            assert(forall|i: int| 0 <= i < dl.len() ==> dl[i] == s[i]);
        }
        lemma_stable_insert_sorted(tracks, kind, dl, x);
        let ri = stable_insert(tracks, kind, dl, x);
        // every entry of the inserted prefix sits at or below the old last
        assert forall|i: int, j: int| 0 <= i < j < r.len() implies sk_le(
            id_key(tracks, kind, r[i]@),
            id_key(tracks, kind, r[j]@),
        ) by {
            if j < r.len() - 1 {
                assert(r[i] == ri[i] && r[j] == ri[j]);
            } else {
                assert(r[j] == s.last());
                assert(r[i] == ri[i]);
                lemma_stable_insert_contains(tracks, kind, dl, x, i);
                if ri[i] == x {
                    lemma_sk_le_total(xk, id_key(tracks, kind, s.last()@));
                } else {
                    let p = choose|p: int| 0 <= p < dl.len() && dl[p] == ri[i];
                    assert(dl[p] == s[p]);
                    assert(sk_le(id_key(tracks, kind, s[p]@), id_key(tracks, kind, s.last()@)));
                }
            }
        }
    } else {
        // the new entry comes to rest at the end, at or above everything
        assert forall|i: int, j: int| 0 <= i < j < r.len() implies sk_le(
            id_key(tracks, kind, r[i]@),
            id_key(tracks, kind, r[j]@),
        ) by {
            if j == r.len() - 1 {
                assert(r[j] == x);
                assert(r[i] == s[i]);
                assert(sk_le(id_key(tracks, kind, s.last()@), xk));
                if i < s.len() - 1 {
                    assert(sk_le(id_key(tracks, kind, s[i]@), id_key(tracks, kind, s.last()@)));
                    lemma_sk_le_transitive(
                        id_key(tracks, kind, s[i]@),
                        id_key(tracks, kind, s.last()@),
                        xk,
                    );
                }
            } else {
                assert(r[i] == s[i] && r[j] == s[j]);
            }
        }
    }
}

/// LAW: a sort leaves the order sorted — every entry's key is at or below
/// the keys of the entries after it.
pub proof fn lemma_stable_sort_sorted(tracks: Seq<Track>, kind: ColumnKind, s: Seq<TrackId>)
    ensures
        sorted_by(tracks, kind, stable_sort(tracks, kind, s)),
    decreases s.len(),
{
    if s.len() != 0 {
        lemma_stable_sort_sorted(tracks, kind, s.drop_last());
        lemma_stable_insert_sorted(
            tracks,
            kind,
            stable_sort(tracks, kind, s.drop_last()),
            s.last(),
        );
    }
}

/// Filtering looks at the pushed entry last.
proof fn lemma_filter_push(s: Seq<TrackId>, x: TrackId, pred: spec_fn(TrackId) -> bool)
    ensures
        s.push(x).filter(pred) == if pred(x) {
            s.filter(pred).push(x)
        } else {
            s.filter(pred)
        },
{
    reveal(Seq::filter);
    assert(s.push(x).drop_last() =~= s);
    assert(s.push(x).last() == x);
}

/// Inserting keeps the entries that share the new entry's key where they
/// were, the new entry joining behind them; entries of other keys are kept
/// as they were too.
proof fn lemma_stable_insert_ties(
    tracks: Seq<Track>,
    kind: ColumnKind,
    s: Seq<TrackId>,
    x: TrackId,
    k: SortKey,
    pred: spec_fn(TrackId) -> bool,
)
    requires
        forall|id: TrackId| #[trigger] pred(id) <==> id_key(tracks, kind, id@) == k,
    ensures
        stable_insert(tracks, kind, s, x).filter(pred) == if id_key(tracks, kind, x@) == k {
            s.filter(pred).push(x)
        } else {
            s.filter(pred)
        },
    decreases s.len(),
{
    let xk = id_key(tracks, kind, x@);
    if s.len() == 0 {
        assert(seq![x] =~= Seq::<TrackId>::empty().push(x));
        lemma_filter_push(Seq::<TrackId>::empty(), x, pred);
        reveal(Seq::filter);
        assert(Seq::<TrackId>::empty().filter(pred) =~= Seq::<TrackId>::empty());
        assert(s =~= Seq::<TrackId>::empty());
    } else if sk_lt(xk, id_key(tracks, kind, s.last()@)) {
        let dl = s.drop_last();
        lemma_stable_insert_ties(tracks, kind, dl, x, k, pred);
        lemma_filter_push(stable_insert(tracks, kind, dl, x), s.last(), pred);
        lemma_filter_push(dl, s.last(), pred);
        assert(s =~= dl.push(s.last()));
        if id_key(tracks, kind, s.last()@) == k && xk == k {
            // the new entry cannot be strictly below an equal key
            assert(false);
        }
    } else {
        lemma_filter_push(s, x, pred);
    }
}

/// LAW: a sort is stable — among entries whose keys tie, the sorted order
/// keeps exactly the relative order they had before the sort. Stated by
/// filtering both orders down to the entries of any one key.
pub proof fn lemma_stable_sort_stable(
    tracks: Seq<Track>,
    kind: ColumnKind,
    s: Seq<TrackId>,
    k: SortKey,
    pred: spec_fn(TrackId) -> bool,
)
    requires
        forall|id: TrackId| #[trigger] pred(id) <==> id_key(tracks, kind, id@) == k,
    ensures
        stable_sort(tracks, kind, s).filter(pred) == s.filter(pred),
    decreases s.len(),
{
    if s.len() == 0 {
    } else {
        let dl = s.drop_last();
        lemma_stable_sort_stable(tracks, kind, dl, k, pred);
        lemma_stable_insert_ties(tracks, kind, stable_sort(tracks, kind, dl), s.last(), k, pred);
        lemma_filter_push(dl, s.last(), pred);
        assert(s =~= dl.push(s.last()));
    }
}

/// The given order, stably sorted under the given column's key. Every
/// identity in the order must name a catalog track.
pub fn sorted_order(tracks: &Vec<Track>, order: &Vec<TrackId>, kind: ColumnKind) -> (r: Vec<
    TrackId,
>)
    requires
        forall|i: int| 0 <= i < order@.len() ==> has_id(tracks@, #[trigger] order@[i]@),
    ensures
        r@ == stable_sort(tracks@, kind, order@),
{
    let n = order.len();
    let mut result: Vec<TrackId> = Vec::new();
    let mut k: usize = 0;
    proof {
        assert(order@.take(0) =~= Seq::<TrackId>::empty());
    }
    while k < n
        invariant
            n == order@.len(),
            0 <= k <= n,
            forall|i: int| 0 <= i < order@.len() ==> has_id(tracks@, #[trigger] order@[i]@),
            result@ == stable_sort(tracks@, kind, order@.take(k as int)),
            forall|i: int| 0 <= i < result@.len() ==> has_id(tracks@, #[trigger] result@[i]@),
        decreases n - k,
    {
        let x = order[k].clone();
        let ghost xk = id_key(tracks@, kind, x@);
        let mut j: usize = result.len();
        loop
            invariant
                0 <= j <= result@.len(),
                has_id(tracks@, x@),
                xk == id_key(tracks@, kind, x@),
                forall|i: int| 0 <= i < result@.len() ==> has_id(tracks@, #[trigger] result@[i]@),
                forall|p: int|
                    j <= p < result@.len() ==> sk_lt(
                        xk,
                        id_key(tracks@, kind, #[trigger] result@[p]@),
                    ),
            ensures
                0 <= j <= result@.len(),
                forall|p: int|
                    j <= p < result@.len() ==> sk_lt(
                        xk,
                        id_key(tracks@, kind, #[trigger] result@[p]@),
                    ),
                j > 0 ==> !sk_lt(xk, id_key(tracks@, kind, result@[j - 1]@)),
            decreases j,
        {
            if j == 0 {
                break ;
            }
            let at_or_below = id_le(tracks, kind, &result[j - 1], &x);
            if at_or_below {
                break ;
            }
            j -= 1;
        }
        proof {
            lemma_stable_insert_at(tracks@, kind, result@, x, j as int);
            assert(order@.take(k as int + 1).drop_last() =~= order@.take(k as int));
            assert(order@.take(k as int + 1).last() == order@[k as int]);
        }
        result.insert(j, x);
        proof {
            assert(result@ == stable_sort(tracks@, kind, order@.take(k as int + 1)));
        }
        k += 1;
    }
    proof {
        assert(order@.take(n as int) =~= order@);
    }
    result
}

} // verus!
