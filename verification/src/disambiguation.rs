use crate::errors::VisualAcuityError;
use crate::text::push_text;
use crate::textmap::precedes;
use vstd::prelude::*;

verus! {

/// A closed set of named values, one of which stands for "unknown".
pub trait Category: Sized + Copy {
    /// The position of the value among the values of its category when
    /// these are sorted by name.
    spec fn order(self) -> nat;

    /// The name of the value.
    spec fn label(self) -> Seq<char>;

    /// The value that stands for "unknown".
    spec fn fallback() -> Self;

    /// The number of values in the category.
    spec fn count() -> nat;

    /// Every position is below `count()`, and no two values share one.
    proof fn lemma_order(a: Self, b: Self)
        ensures
            a.order() < Self::count(),
            a.order() == b.order() ==> a == b,
    ;

    /// The positions are those of the names in the order of texts.
    proof fn lemma_sorted_by_name(a: Self, b: Self)
        ensures
            a.order() < b.order() <==> precedes(a.label(), b.label()),
    ;

    /// The position of the value, as a number.
    fn rank(&self) -> (r: u8)
        ensures
            r == self.order(),
    ;

    /// The number of values in the category.
    fn total() -> (r: u8)
        ensures
            r == Self::count(),
    ;

    /// The value that stands for "unknown".
    fn unknown() -> (r: Self)
        ensures
            r == Self::fallback(),
    ;

    /// The name of the value.
    fn to_text(&self) -> (r: String)
        ensures
            r@ == self.label(),
    ;
}

/// Whether some value of `values` has the position `r`.
pub open spec fn occurs<T: Category>(values: Seq<T>, r: nat) -> bool {
    exists|i: int| 0 <= i < values.len() && (#[trigger] values[i]).order() == r
}

/// The value of `values` at position `r` of its category.
pub open spec fn occurring<T: Category>(values: Seq<T>, r: nat) -> T {
    values[choose|i: int| 0 <= i < values.len() && (#[trigger] values[i]).order() == r]
}

/// The distinct values of `values` whose position is below `bound`, in
/// the order of their positions.
pub open spec fn competitors_below<T: Category>(values: Seq<T>, bound: nat) -> Seq<T>
    decreases bound,
{
    if bound == 0 {
        Seq::empty()
    } else if occurs(values, (bound - 1) as nat) {
        competitors_below(values, (bound - 1) as nat).push(
            occurring(values, (bound - 1) as nat),
        )
    } else {
        competitors_below(values, (bound - 1) as nat)
    }
}

/// The distinct values of `values`, sorted by name.
pub open spec fn competitors<T: Category>(values: Seq<T>) -> Seq<T> {
    competitors_below(values, T::count())
}

/// The names of `items` from index `from` on, each after the first
/// preceded by a comma and a space.
pub open spec fn joined_labels<T: Category>(items: Seq<T>, upto: nat) -> Seq<char>
    decreases upto,
{
    if upto == 0 {
        Seq::empty()
    } else if upto == 1 {
        items[0].label()
    } else {
        joined_labels(items, (upto - 1) as nat) + seq![',', ' '] + items[upto - 1].label()
    }
}

/// The text that reports a conflict between `items`: their names,
/// separated by a comma and a space, in square brackets.
pub open spec fn conflict_text<T: Category>(items: Seq<T>) -> Seq<char> {
    seq!['['] + joined_labels(items, items.len()) + seq![']']
}

/// What the values gathered for one category come to: the "unknown"
/// value where there is none, the value where all are the same, and
/// else a conflict that names the distinct values, sorted by name.
pub open spec fn disambiguated<T: Category>(values: Seq<T>) -> Result<T, Seq<char>> {
    let found = competitors(values);
    if found.len() == 0 {
        Ok(T::fallback())
    } else if found.len() == 1 {
        Ok(found[0])
    } else {
        Err(conflict_text(found))
    }
}

/// `competitors_below` holds exactly the values of `values` with a
/// position below `bound`, each once, in the order of the positions.
pub proof fn lemma_competitors_below<T: Category>(values: Seq<T>, bound: nat)
    ensures
        forall|k: int|
            0 <= k < competitors_below(values, bound).len() ==> {
                &&& values.contains(#[trigger] competitors_below(values, bound)[k])
                &&& competitors_below(values, bound)[k].order() < bound
            },
        forall|j: int, k: int|
            0 <= j < k < competitors_below(values, bound).len() ==> competitors_below(
                values,
                bound,
            )[j].order() < competitors_below(values, bound)[k].order(),
        forall|i: int|
            0 <= i < values.len() && (#[trigger] values[i]).order() < bound
                ==> competitors_below(values, bound).contains(values[i]),
    decreases bound,
{
    if bound > 0 {
        let prev = competitors_below(values, (bound - 1) as nat);
        let now = competitors_below(values, bound);
        lemma_competitors_below(values, (bound - 1) as nat);
        if occurs(values, (bound - 1) as nat) {
            let v = occurring(values, (bound - 1) as nat);
            assert(values.contains(v));
            assert(now == prev.push(v));
            assert forall|i: int|
                0 <= i < values.len() && (#[trigger] values[i]).order() < bound implies now.contains(
                values[i],
            ) by {
                if values[i].order() == bound - 1 {
                    T::lemma_order(values[i], v);
                    assert(now[prev.len() as int] == v);
                } else {
                    assert(prev.contains(values[i]));
                    let k = choose|k: int| 0 <= k < prev.len() && prev[k] == values[i];
                    assert(now[k] == values[i]);
                }
            }
        } else {
            assert forall|i: int|
                0 <= i < values.len() && (#[trigger] values[i]).order() < bound implies now.contains(
                values[i],
            ) by {
                if values[i].order() == bound - 1 {
                    assert(occurs(values, (bound - 1) as nat));
                }
            }
        }
    }
}

/// The distinct values stand in the order of their names.
pub proof fn lemma_competitors_sorted<T: Category>(values: Seq<T>, j: int, k: int)
    requires
        0 <= j < k < competitors(values).len(),
    ensures
        precedes(competitors(values)[j].label(), competitors(values)[k].label()),
{
    lemma_competitors_below(values, T::count());
    T::lemma_sorted_by_name(competitors(values)[j], competitors(values)[k]);
}

/// No values come to the "unknown" value.
pub proof fn lemma_disambiguated_empty<T: Category>(values: Seq<T>)
    requires
        values.len() == 0,
    ensures
        disambiguated(values) == Ok::<T, Seq<char>>(T::fallback()),
{
    lemma_competitors_below(values, T::count());
    let found = competitors(values);
    if found.len() > 0 {
        assert(values.contains(found[0]));
    }
}

/// One value, however often it is repeated, comes to that value.
pub proof fn lemma_disambiguated_single<T: Category>(values: Seq<T>, v: T)
    requires
        values.len() > 0,
        forall|i: int| 0 <= i < values.len() ==> values[i] == v,
    ensures
        disambiguated(values) == Ok::<T, Seq<char>>(v),
{
    lemma_competitors_below(values, T::count());
    let found = competitors(values);
    T::lemma_order(v, v);
    assert(values[0].order() < T::count());
    assert(found.contains(values[0]));
    assert(values.contains(found[0]));
    if found.len() > 1 {
        assert(values.contains(found[1]));
        assert(found[0].order() < found[1].order());
    }
}

/// Two distinct values, in whatever order and however often they are
/// given, come to a conflict that names both, the one that sorts first
/// before the other.
pub proof fn lemma_disambiguated_pair<T: Category>(values: Seq<T>, a: T, b: T)
    requires
        a.order() < b.order(),
        values.contains(a),
        values.contains(b),
        forall|i: int| 0 <= i < values.len() ==> values[i] == a || values[i] == b,
    ensures
        competitors(values) == seq![a, b],
        disambiguated(values) == Err::<T, Seq<char>>(
            seq!['['] + a.label() + seq![',', ' '] + b.label() + seq![']'],
        ),
{
    lemma_competitors_below(values, T::count());
    let found = competitors(values);
    T::lemma_order(a, b);
    T::lemma_order(b, a);
    let ia = choose|i: int| 0 <= i < values.len() && values[i] == a;
    let ib = choose|i: int| 0 <= i < values.len() && values[i] == b;
    assert(values[ia].order() < T::count());
    assert(values[ib].order() < T::count());
    assert(found.contains(a));
    assert(found.contains(b));
    let ka = choose|k: int| 0 <= k < found.len() && found[k] == a;
    let kb = choose|k: int| 0 <= k < found.len() && found[k] == b;
    assert forall|k: int| 0 <= k < found.len() implies (#[trigger] found[k]) == a || found[k]
        == b by {
        assert(values.contains(found[k]));
    }
    assert(ka != kb);
    if found.len() >= 3 {
        assert(found[0].order() < found[1].order());
        assert(found[1].order() < found[2].order());
    }
    assert(found[0].order() < found[1].order());
    assert(found =~= seq![a, b]);
    assert(joined_labels(found, 2) == a.label() + seq![',', ' '] + b.label()) by {
        reveal_with_fuel(joined_labels, 3);
    }
    assert(conflict_text(found) =~= seq!['['] + a.label() + seq![',', ' '] + b.label() + seq![
        ']',
    ]);
}

/// The first value of `values` whose position is `r`, if there is one.
fn find_rank<T: Category>(values: &Vec<T>, r: u8) -> (found: Option<T>)
    ensures
        found is Some <==> occurs(values@, r as nat),
        found matches Some(v) ==> v == occurring(values@, r as nat),
{
    let mut i: usize = 0;
    while i < values.len()
        invariant
            i <= values.len(),
            forall|j: int| 0 <= j < i ==> (#[trigger] values@[j]).order() != r,
        decreases values.len() - i,
    {
        if values[i].rank() == r {
            proof {
                assert(occurs(values@, r as nat));
                T::lemma_order(values@[i as int], occurring(values@, r as nat));
            }
            return Some(values[i]);
        }
        i += 1;
    }
    None
}

/// The distinct values of `values`, sorted by name.
pub fn distinct_sorted<T: Category>(values: &Vec<T>) -> (found: Vec<T>)
    ensures
        found@ == competitors(values@),
{
    let total = T::total();
    let mut found: Vec<T> = Vec::new();
    let mut r: u8 = 0;
    while r < total
        invariant
            r <= total,
            total == T::count(),
            found@ == competitors_below(values@, r as nat),
        decreases total - r,
    {
        match find_rank(values, r) {
            Some(v) => {
                found.push(v);
            },
            None => {},
        }
        r += 1;
    }
    found
}

/// The text that reports a conflict between `items`.
pub fn conflict_message<T: Category>(items: &Vec<T>) -> (r: String)
    ensures
        r@ == conflict_text(items@),
{
    let mut out = "[".to_owned();
    proof {
        reveal_strlit("[");
        reveal_strlit("]");
        reveal_strlit(", ");
    }
    let ghost start = out@;
    assert(start =~= seq!['[']);
    let mut i: usize = 0;
    while i < items.len()
        invariant
            i <= items.len(),
            out@ == start + joined_labels(items@, i as nat),
            ", "@ =~= seq![',', ' '],
        decreases items.len() - i,
    {
        if i > 0 {
            push_text(&mut out, ", ");
        }
        let name = items[i].to_text();
        push_text(&mut out, name.as_str());
        i += 1;
        assert(out@ =~= start + joined_labels(items@, i as nat));
    }
    push_text(&mut out, "]");
    assert(out@ =~= conflict_text(items@));
    out
}

/// Reduces the values gathered for one category to one value, the
/// "unknown" value, or a conflict.
pub fn disambiguate<T: Category>(values: &Vec<T>) -> (r: Result<T, VisualAcuityError>)
    ensures
        match disambiguated(values@) {
            Ok(v) => r == Ok::<T, VisualAcuityError>(v),
            Err(text) => r matches Err(VisualAcuityError::MultipleValues(s)) && s@ == text,
        },
{
    let found = distinct_sorted(values);
    if found.len() == 0 {
        Ok(T::unknown())
    } else if found.len() == 1 {
        Ok(found[0])
    } else {
        Err(VisualAcuityError::MultipleValues(conflict_message(&found)))
    }
}

} // verus!
