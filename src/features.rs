//! Comma-separated feature lists and their merge.
use rustc_hash::FxHashSet;
use vstd::prelude::*;

verus! {

/// The pieces of `s` between occurrences of `sep` (always at least one piece).
pub open spec fn split_on(s: Seq<char>, sep: char) -> Seq<Seq<char>>
    decreases s.len(),
{
    if s.len() == 0 {
        seq![Seq::<char>::empty()]
    } else {
        let prev = split_on(s.drop_last(), sep);
        if s.last() == sep {
            prev.push(Seq::<char>::empty())
        } else {
            prev.update(prev.len() - 1, prev.last().push(s.last()))
        }
    }
}

/// The pieces of `v` glued together with `sep` between consecutive ones.
pub open spec fn join_with(v: Seq<Seq<char>>, sep: char) -> Seq<char>
    decreases v.len(),
{
    if v.len() == 0 {
        Seq::<char>::empty()
    } else if v.len() == 1 {
        v[0]
    } else {
        join_with(v.drop_last(), sep).push(sep) + v.last()
    }
}

/// The feature names that a comma-separated list names.
pub open spec fn features_of(s: Seq<char>) -> Set<Seq<char>> {
    split_on(s, ',').to_set()
}

/// The feature names of a merge of the lists `a` and `b`.
pub open spec fn merged_features(a: Seq<char>, b: Seq<char>) -> Set<Seq<char>> {
    features_of(a).union(features_of(b))
}

/// `s` holds no `sep`.
pub open spec fn free_of(s: Seq<char>, sep: char) -> bool {
    forall|i: int| 0 <= i < s.len() ==> s[i] != sep
}

/// The texts of a sequence of strings.
pub open spec fn views_of(v: Seq<String>) -> Seq<Seq<char>> {
    v.map_values(|s: String| s@)
}

proof fn lemma_split_nonempty(s: Seq<char>, sep: char)
    ensures
        split_on(s, sep).len() >= 1,
    decreases s.len(),
{
    if s.len() > 0 {
        lemma_split_nonempty(s.drop_last(), sep);
    }
}

proof fn lemma_split_pieces_free(s: Seq<char>, sep: char)
    ensures
        forall|k: int| 0 <= k < split_on(s, sep).len() ==> free_of(#[trigger] split_on(s, sep)[k], sep),
    decreases s.len(),
{
    if s.len() > 0 {
        lemma_split_pieces_free(s.drop_last(), sep);
        lemma_split_nonempty(s.drop_last(), sep);
    }
}

proof fn lemma_split_append_free(x: Seq<char>, y: Seq<char>, sep: char)
    requires
        free_of(y, sep),
    ensures
        split_on(x + y, sep) == split_on(x, sep).update(
            split_on(x, sep).len() - 1,
            split_on(x, sep).last() + y,
        ),
    decreases y.len(),
{
    lemma_split_nonempty(x, sep);
    let px = split_on(x, sep);
    if y.len() == 0 {
        assert(x + y =~= x);
        assert(px.last() + y =~= px.last());
        assert(px.update(px.len() - 1, px.last()) =~= px);
    } else {
        let y0 = y.drop_last();
        lemma_split_append_free(x, y0, sep);
        assert((x + y).drop_last() =~= x + y0);
        assert((x + y).last() == y.last());
        assert((px.last() + y0).push(y.last()) =~= px.last() + y);
        assert(split_on(x + y, sep) =~= px.update(px.len() - 1, px.last() + y));
    }
}

/// Splitting a joined list of separator-free pieces gives the pieces back.
proof fn lemma_split_join(v: Seq<Seq<char>>, sep: char)
    requires
        v.len() >= 1,
        forall|k: int| 0 <= k < v.len() ==> free_of(#[trigger] v[k], sep),
    ensures
        split_on(join_with(v, sep), sep) == v,
    decreases v.len(),
{
    if v.len() == 1 {
        lemma_split_append_free(Seq::<char>::empty(), v[0], sep);
        assert(Seq::<char>::empty() + v[0] =~= v[0]);
        assert(split_on(Seq::<char>::empty(), sep).update(0, Seq::<char>::empty() + v[0]) =~= v);
    } else {
        let w = v.drop_last();
        lemma_split_join(w, sep);
        let j = join_with(w, sep).push(sep);
        lemma_split_append_free(j, v.last(), sep);
        assert(j.drop_last() =~= join_with(w, sep));
        assert(split_on(j, sep) == w.push(Seq::<char>::empty()));
        assert(Seq::<char>::empty() + v.last() =~= v.last());
        assert(w.push(Seq::<char>::empty()).update(w.len() as int, v.last()) =~= v);
    }
}

/// What a `FeatureSet` holds.
pub uninterp spec fn feature_set_items(s: FeatureSet) -> Set<Seq<char>>;

/// A set of feature names, kept in an `FxHashSet`.
#[verifier::external_body]
pub struct FeatureSet {
    set: FxHashSet<String>,
}

impl FeatureSet {
    /// Relies on `FxHashSet::default`: a new set is empty.
    #[verifier::external_body]
    fn new() -> (r: FeatureSet)
        ensures
            feature_set_items(r) == Set::<Seq<char>>::empty(),
    {
        FeatureSet { set: FxHashSet::default() }
    }

    /// Relies on `HashSet::insert`: afterwards the set holds `name` besides what it held.
    #[verifier::external_body]
    fn insert(&mut self, name: &str)
        ensures
            feature_set_items(*final(self)) == feature_set_items(*old(self)).insert(name@),
    {
        self.set.insert(name.to_string());
    }

    /// Relies on `HashSet::iter`: it visits each element once, in some order.
    #[verifier::external_body]
    fn items(&self) -> (r: Vec<String>)
        ensures
            views_of(r@).no_duplicates(),
            views_of(r@).to_set() == feature_set_items(*self),
    {
        self.set.iter().cloned().collect()
    }
}

/// The pieces of `s` between the occurrences of `sep`.
pub fn split_str(s: &str, sep: char) -> (r: Vec<String>)
    ensures
        views_of(r@) == split_on(s@, sep),
{
    let n = s.unicode_len();
    let mut pieces: Vec<String> = Vec::new();
    let mut start: usize = 0;
    let mut i: usize = 0;
    assert(views_of(pieces@) =~= Seq::<Seq<char>>::empty());
    assert(s@.subrange(0, 0) =~= Seq::<char>::empty());
    assert(split_on(Seq::<char>::empty(), sep) == seq![Seq::<char>::empty()]);
    assert(views_of(pieces@).push(s@.subrange(0, 0)) =~= split_on(s@.subrange(0, 0), sep));
    while i < n
        invariant
            n == s@.len(),
            start <= i <= n,
            views_of(pieces@).push(s@.subrange(start as int, i as int)) == split_on(
                s@.subrange(0, i as int),
                sep,
            ),
        decreases n - i,
    {
        let c = s.get_char(i);
        let ghost prefix = s@.subrange(0, i + 1);
        assert(prefix.drop_last() =~= s@.subrange(0, i as int));
        assert(prefix.last() == c);
        if c == sep {
            let ghost before = views_of(pieces@);
            let piece = String::from_str(s.substring_char(start, i));
            pieces.push(piece);
            assert(views_of(pieces@) =~= before.push(s@.subrange(start as int, i as int)));
            start = i + 1;
            assert(s@.subrange(start as int, i + 1) =~= Seq::<char>::empty());
        } else {
            assert(s@.subrange(start as int, i as int).push(c) =~= s@.subrange(start as int, i + 1));
        }
        i = i + 1;
    }
    assert(s@.subrange(0, n as int) =~= s@);
    let ghost before = views_of(pieces@);
    pieces.push(String::from_str(s.substring_char(start, n)));
    assert(views_of(pieces@) =~= before.push(s@.subrange(start as int, n as int)));
    pieces
}

/// The strings of `v` glued together with commas.
fn join_commas(v: &Vec<String>) -> (r: String)
    ensures
        r@ == join_with(views_of(v@), ','),
{
    let mut r = String::new();
    let mut i: usize = 0;
    while i < v.len()
        invariant
            i <= v.len(),
            r@ == join_with(views_of(v@).subrange(0, i as int), ','),
        decreases v.len() - i,
    {
        let ghost w = views_of(v@).subrange(0, i + 1);
        let ghost before = r@;
        assert(w.drop_last() =~= views_of(v@).subrange(0, i as int));
        if i > 0 {
            proof {
                reveal_strlit(",");
            }
            r.append(",");
            assert(r@ =~= before.push(','));
        } else {
            assert(before =~= Seq::<char>::empty());
        }
        r.append(v[i].as_str());
        assert(r@ =~= join_with(w, ','));
        i = i + 1;
    }
    assert(views_of(v@).subrange(0, v.len() as int) =~= views_of(v@));
    r
}

/// Adds every string of `names` to `set`.
fn insert_all(set: &mut FeatureSet, names: &Vec<String>)
    ensures
        feature_set_items(*final(set)) == feature_set_items(*old(set)).union(
            views_of(names@).to_set(),
        ),
{
    let mut i: usize = 0;
    while i < names.len()
        invariant
            i <= names.len(),
            feature_set_items(*set) == feature_set_items(*old(set)).union(
                views_of(names@).subrange(0, i as int).to_set(),
            ),
        decreases names.len() - i,
    {
        let ghost before = views_of(names@).subrange(0, i as int);
        set.insert(names[i].as_str());
        assert(views_of(names@).subrange(0, i + 1) =~= before.push(names@[i as int]@));
        proof {
            let x = names@[i as int]@;
            Seq::lemma_to_set_insert_commutes(before, x);
            assert(before.push(x) =~= before + seq![x]);
        }
        assert(before.push(names@[i as int]@).to_set() =~= before.to_set().insert(
            names@[i as int]@,
        ));
        i = i + 1;
    }
    assert(views_of(names@).subrange(0, names.len() as int) =~= views_of(names@));
}

/// Merges two comma-separated feature lists: every name of either list
/// appears exactly once in the result, in no particular order.
pub fn merge_features(a: &str, b: &str) -> (r: String)
    ensures
        split_on(r@, ',').no_duplicates(),
        features_of(r@) == merged_features(a@, b@),
{
    let mut set = FeatureSet::new();
    let from_a = split_str(a, ',');
    insert_all(&mut set, &from_a);
    let from_b = split_str(b, ',');
    insert_all(&mut set, &from_b);
    let names = set.items();
    let r = join_commas(&names);
    proof {
        let v = views_of(names@);
        let sa = split_on(a@, ',');
        let sb = split_on(b@, ',');
        assert(feature_set_items(set) =~= merged_features(a@, b@));
        lemma_split_nonempty(a@, ',');
        lemma_split_pieces_free(a@, ',');
        lemma_split_pieces_free(b@, ',');
        assert(sa.to_set().contains(sa[0]));
        assert(v.to_set().contains(sa[0]));
        assert forall|k: int| 0 <= k < v.len() implies free_of(#[trigger] v[k], ',') by {
            assert(v.to_set().contains(v[k]));
            if sa.contains(v[k]) {
                let j = choose|j: int| 0 <= j < sa.len() && sa[j] == v[k];
                assert(free_of(sa[j], ','));
            } else {
                assert(sb.contains(v[k]));
                let j = choose|j: int| 0 <= j < sb.len() && sb[j] == v[k];
                assert(free_of(sb[j], ','));
            }
        }
        lemma_split_join(v, ',');
    }
    r
}

/// Merging is symmetric: `merge(a, b)` and `merge(b, a)` name the same features.
pub proof fn merge_is_commutative(a: Seq<char>, b: Seq<char>)
    ensures
        merged_features(a, b) == merged_features(b, a),
{
    assert(merged_features(a, b) =~= merged_features(b, a));
}

/// Merging a list with itself gives that list without its repeated names.
pub proof fn merge_with_itself_dedups(a: Seq<char>)
    ensures
        merged_features(a, a) == features_of(a),
{
    assert(merged_features(a, a) =~= features_of(a));
}

/// A name is in a merge exactly when it is in one of the two lists.
pub proof fn merge_keeps_every_name(a: Seq<char>, b: Seq<char>, name: Seq<char>)
    ensures
        merged_features(a, b).contains(name) <==> (split_on(a, ',').contains(name) || split_on(
            b,
            ',',
        ).contains(name)),
{
}

} // verus!
