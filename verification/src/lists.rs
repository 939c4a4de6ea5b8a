//! Long lists whose rows are known by keys: what changes when the rows change.
use crate::text::{same, texts};
use vstd::prelude::*;
use vstd::string::*;

verus! {

/// The rows `start..end` make way for `added` new ones.
pub struct Splice {
    pub start: usize,
    pub end: usize,
    pub added: usize,
}

/// The number of rows at the front that are the same.
pub open spec fn common_front(a: Seq<Seq<char>>, b: Seq<Seq<char>>) -> nat
    decreases a.len(),
{
    if a.len() == 0 || b.len() == 0 || a[0] != b[0] {
        0
    } else {
        1 + common_front(a.skip(1), b.skip(1))
    }
}

/// The number of rows at the back that are the same.
pub open spec fn common_back(a: Seq<Seq<char>>, b: Seq<Seq<char>>) -> nat
    decreases a.len(),
{
    if a.len() == 0 || b.len() == 0 || a.last() != b.last() {
        0
    } else {
        1 + common_back(a.drop_last(), b.drop_last())
    }
}

pub open spec fn at_most(n: nat, bound: int) -> nat {
    if n <= bound {
        n
    } else {
        bound as nat
    }
}

/// The rows at the back that stay: the same on both sides, and none of those at the
/// front.
pub open spec fn kept_back(a: Seq<Seq<char>>, b: Seq<Seq<char>>) -> nat {
    let front = common_front(a, b);
    at_most(at_most(common_back(a, b), a.len() - front), b.len() - front)
}

proof fn front_is_common(a: Seq<Seq<char>>, b: Seq<Seq<char>>)
    ensures
        common_front(a, b) <= a.len(),
        common_front(a, b) <= b.len(),
        forall|i: int| 0 <= i < common_front(a, b) ==> #[trigger] a[i] == b[i],
    decreases a.len(),
{
    if a.len() > 0 && b.len() > 0 && a[0] == b[0] {
        front_is_common(a.skip(1), b.skip(1));
        assert forall|i: int| 0 <= i < common_front(a, b) implies #[trigger] a[i] == b[i] by {
            if i > 0 {
                assert(a.skip(1)[i - 1] == b.skip(1)[i - 1]);
            }
        }
    }
}

proof fn back_is_common(a: Seq<Seq<char>>, b: Seq<Seq<char>>)
    ensures
        common_back(a, b) <= a.len(),
        common_back(a, b) <= b.len(),
        forall|i: int|
            1 <= i <= common_back(a, b) ==> #[trigger] a[a.len() - i] == b[b.len() - i],
    decreases a.len(),
{
    if a.len() > 0 && b.len() > 0 && a.last() == b.last() {
        let x = a.drop_last();
        let y = b.drop_last();
        back_is_common(x, y);
        assert forall|i: int| 1 <= i <= common_back(a, b) implies #[trigger] a[a.len() - i]
            == b[b.len() - i] by {
            if i > 1 {
                assert(x[x.len() - (i - 1)] == y[y.len() - (i - 1)]);
            }
        }
    }
}

fn count_front(a: &Vec<String>, b: &Vec<String>) -> (result: usize)
    ensures
        result == common_front(texts(a@), texts(b@)),
        result <= a@.len(),
        result <= b@.len(),
{
    let ghost x = texts(a@);
    let ghost y = texts(b@);
    let mut i: usize = 0;
    assert(x.skip(0) =~= x);
    assert(y.skip(0) =~= y);
    while i < a.len() && i < b.len() && a[i] == b[i]
        invariant
            i <= a@.len(),
            i <= b@.len(),
            x == texts(a@),
            y == texts(b@),
            i + common_front(x.skip(i as int), y.skip(i as int)) == common_front(x, y),
        decreases a@.len() - i,
    {
        assert(x.skip(i as int)[0] == a@[i as int]@);
        assert(y.skip(i as int)[0] == b@[i as int]@);
        assert(x.skip(i as int).skip(1) =~= x.skip(i + 1));
        assert(y.skip(i as int).skip(1) =~= y.skip(i + 1));
        i += 1;
    }
    proof {
        if i < a@.len() && i < b@.len() {
            assert(x.skip(i as int)[0] == a@[i as int]@);
            assert(y.skip(i as int)[0] == b@[i as int]@);
        }
    }
    i
}

fn count_back(a: &Vec<String>, b: &Vec<String>) -> (result: usize)
    ensures
        result == common_back(texts(a@), texts(b@)),
        result <= a@.len(),
        result <= b@.len(),
{
    let ghost x = texts(a@);
    let ghost y = texts(b@);
    let m: usize = a.len();
    let n: usize = b.len();
    let mut i: usize = 0;
    assert(x.take(m as int) =~= x);
    assert(y.take(n as int) =~= y);
    while i < m && i < n && a[m - 1 - i] == b[n - 1 - i]
        invariant
            i <= m == a@.len(),
            i <= n == b@.len(),
            x == texts(a@),
            y == texts(b@),
            i + common_back(x.take(m - i), y.take(n - i)) == common_back(x, y),
        decreases m - i,
    {
        assert(x.take(m - i).last() == a@[m - 1 - i]@);
        assert(y.take(n - i).last() == b@[n - 1 - i]@);
        assert(x.take(m - i).drop_last() =~= x.take(m - i - 1));
        assert(y.take(n - i).drop_last() =~= y.take(n - i - 1));
        i += 1;
    }
    proof {
        if i < m && i < n {
            assert(x.take(m - i).last() == a@[m - 1 - i]@);
            assert(y.take(n - i).last() == b@[n - 1 - i]@);
        }
    }
    i
}

fn same_keys(a: &Vec<String>, b: &Vec<String>) -> (result: bool)
    ensures
        result == (texts(a@) == texts(b@)),
{
    if a.len() != b.len() {
        assert(texts(a@).len() != texts(b@).len());
        return false;
    }
    let mut i: usize = 0;
    while i < a.len()
        invariant
            i <= a@.len() == b@.len(),
            forall|j: int| 0 <= j < i ==> texts(a@)[j] == texts(b@)[j],
        decreases a@.len() - i,
    {
        if !(a[i] == b[i]) {
            assert(texts(a@)[i as int] != texts(b@)[i as int]);
            return false;
        }
        i += 1;
    }
    assert(texts(a@) =~= texts(b@));
    true
}

/// Takes new rows for a list: those at the front and at the back that are the same
/// stay, so that what was measured of them and the place one looks at are kept.
/// Gives what has to be replaced; nothing where nothing changed.
pub fn reconcile_list_items(keys: &mut Vec<String>, new_keys: Vec<String>) -> (result: Option<
    Splice,
>)
    ensures
        texts(final(keys)@) == texts(new_keys@),
        result is None == (texts(old(keys)@) == texts(new_keys@)),
        result matches Some(splice) ==> {
            let a = texts(old(keys)@);
            let b = texts(new_keys@);
            &&& splice.start == common_front(a, b)
            &&& splice.end == a.len() - kept_back(a, b)
            &&& splice.added == b.len() - common_front(a, b) - kept_back(a, b)
            &&& splice.start <= splice.end
        },
{
    let ghost a = texts(keys@);
    let ghost b = texts(new_keys@);
    if same_keys(keys, &new_keys) {
        return None;
    }
    let prefix = count_front(keys, &new_keys);
    let mut suffix = count_back(keys, &new_keys);
    if suffix > keys.len() - prefix {
        suffix = keys.len() - prefix;
    }
    if suffix > new_keys.len() - prefix {
        suffix = new_keys.len() - prefix;
    }
    let splice = Splice {
        start: prefix,
        end: keys.len() - suffix,
        added: new_keys.len() - prefix - suffix,
    };
    *keys = new_keys;
    Some(splice)
}

/// Rows outside the splice are the rows that were there: the front stays in place
/// and the back moves as a whole.
pub proof fn rows_outside_the_splice_stay(a: Seq<Seq<char>>, b: Seq<Seq<char>>)
    ensures
        common_front(a, b) + kept_back(a, b) <= a.len(),
        common_front(a, b) + kept_back(a, b) <= b.len(),
        forall|i: int| 0 <= i < common_front(a, b) ==> #[trigger] a[i] == b[i],
        forall|i: int| 1 <= i <= kept_back(a, b) ==> #[trigger] a[a.len() - i] == b[b.len() - i],
        b == a.take(common_front(a, b) as int) + b.subrange(
            common_front(a, b) as int,
            b.len() - kept_back(a, b),
        ) + a.skip(a.len() - kept_back(a, b)),
{
    front_is_common(a, b);
    back_is_common(a, b);
    let front = common_front(a, b) as int;
    let back = kept_back(a, b) as int;
    let made = a.take(front) + b.subrange(front, b.len() - back) + a.skip(a.len() - back);
    assert forall|i: int| 0 <= i < b.len() implies b[i] == made[i] by {
        if i < front {
            assert(a[i] == b[i]);
        } else if i >= b.len() - back {
            let k = b.len() - i;
            assert(a[a.len() - k] == b[b.len() - k]);
        }
    }
    assert(b =~= made);
}

/// The rows that are spliced in make the new list out of the old one: before and after them
/// the old rows stay. A list that has not changed is not spliced.
pub proof fn the_splice_makes_the_new_list(
    keys: &mut Vec<String>,
    new_keys: Vec<String>,
    splice: Option<Splice>,
)
    requires
        call_ensures(reconcile_list_items, (keys, new_keys), splice),
    ensures
        texts(final(keys)@) == texts(new_keys@),
        splice is None <==> texts(old(keys)@) == texts(new_keys@),
        splice matches Some(part) ==> {
            let a = texts(old(keys)@);
            let b = texts(new_keys@);
            &&& part.start <= part.end <= a.len()
            &&& part.start + part.added <= b.len()
            &&& b == a.take(part.start as int) + b.subrange(
                part.start as int,
                part.start + part.added,
            ) + a.skip(part.end as int)
            &&& part.start < part.end && part.added > 0 ==> a[part.start as int]
                != b[part.start as int]
        },
{
    let a = texts(old(keys)@);
    let b = texts(new_keys@);
    rows_outside_the_splice_stay(a, b);
    front_ends(a, b);
}

proof fn front_ends(a: Seq<Seq<char>>, b: Seq<Seq<char>>)
    ensures
        common_front(a, b) < a.len() && common_front(a, b) < b.len() ==> a[common_front(a, b) as int]
            != b[common_front(a, b) as int],
    decreases a.len(),
{
    if a.len() > 0 && b.len() > 0 && a[0] == b[0] {
        front_ends(a.skip(1), b.skip(1));
    }
}

} // verus!
